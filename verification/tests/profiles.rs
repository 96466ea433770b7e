use course_registry::profile::{UserProfile, UserProfileContract};
use course_registry::schema::Error;
use course_registry::Address;

fn s(t: &str) -> String {
    String::from(t)
}

fn create_test_profile(address: Address) -> UserProfile {
    UserProfile {
        address,
        off_chain_ref_id: s("usr-abc123-def456"),
        did_hash: Some(s("did:example:abcdef1234567890")),
        created_at: 0,
        updated_at: 0,
    }
}

#[test]
fn test_get_user_profile_success() {
    let mut contract = UserProfileContract::new();
    let user_address = Address(1);
    let profile = create_test_profile(user_address);

    contract.save_profile(profile.clone());

    let result = contract.get_user_profile(user_address).unwrap();
    assert_eq!(result, profile);
}

#[test]
fn test_get_user_profile_with_privacy_returns_same_data() {
    let mut contract = UserProfileContract::new();
    let user_address = Address(1);
    let requester_address = Address(2);
    let profile = create_test_profile(user_address);

    contract.save_profile(profile.clone());

    let result = contract
        .get_user_profile_with_privacy(user_address, requester_address)
        .unwrap();
    assert_eq!(result.address, profile.address);
    assert_eq!(result.off_chain_ref_id, profile.off_chain_ref_id);
    assert_eq!(result.did_hash, profile.did_hash);
}

#[test]
fn test_get_user_profile_with_privacy_same_user() {
    let mut contract = UserProfileContract::new();
    let user_address = Address(1);
    let profile = create_test_profile(user_address);

    contract.save_profile(profile.clone());

    let result = contract.get_user_profile_with_privacy(user_address, user_address).unwrap();
    assert_eq!(result, profile);
}

#[test]
fn test_get_user_profile_with_privacy_different_user() {
    let mut contract = UserProfileContract::new();
    let user_address = Address(1);
    let requester_address = Address(2);
    let profile = create_test_profile(user_address);

    contract.save_profile(profile.clone());

    let result = contract
        .get_user_profile_with_privacy(user_address, requester_address)
        .unwrap();
    assert_eq!(result.address, profile.address);
    assert_eq!(result.off_chain_ref_id, profile.off_chain_ref_id);
}

#[test]
fn test_profile_data_integrity() {
    let mut contract = UserProfileContract::new();
    let user_address = Address(1);
    let profile = UserProfile {
        address: user_address,
        off_chain_ref_id: s("usr-integrity-test"),
        did_hash: None,
        created_at: 0,
        updated_at: 0,
    };

    contract.save_profile(profile.clone());

    let result = contract.get_user_profile(user_address).unwrap();
    assert_eq!(result.address, profile.address);
    assert_eq!(result.off_chain_ref_id, profile.off_chain_ref_id);
    assert_eq!(result.did_hash, profile.did_hash);
    assert_eq!(result.created_at, profile.created_at);
    assert_eq!(result.updated_at, profile.updated_at);
}

#[test]
fn test_multiple_users_profiles() {
    let mut contract = UserProfileContract::new();
    let user1_address = Address(1);
    let user2_address = Address(2);

    let profile1 = create_test_profile(user1_address);
    let profile2 = UserProfile {
        address: user2_address,
        off_chain_ref_id: s("usr-jane-789xyz"),
        did_hash: Some(s("did:example:jane9876543210")),
        created_at: 0,
        updated_at: 0,
    };

    contract.save_profile(profile1.clone());
    contract.save_profile(profile2.clone());

    let result1 = contract.get_user_profile(user1_address).unwrap();
    let result2 = contract.get_user_profile(user2_address).unwrap();

    assert_eq!(result1, profile1);
    assert_eq!(result2, profile2);
    assert_ne!(result1, result2);
}

#[test]
fn test_profile_with_did_hash() {
    let mut contract = UserProfileContract::new();
    let user_address = Address(1);
    let profile = UserProfile {
        address: user_address,
        off_chain_ref_id: s("usr-did-test"),
        did_hash: Some(s("sha256:abcdef0123456789")),
        created_at: 0,
        updated_at: 0,
    };

    contract.save_profile(profile);

    let result = contract.get_user_profile(user_address).unwrap();
    assert_eq!(result.did_hash, Some(s("sha256:abcdef0123456789")));
}

#[test]
fn test_profile_without_did_hash() {
    let mut contract = UserProfileContract::new();
    let user_address = Address(1);
    let profile = UserProfile {
        address: user_address,
        off_chain_ref_id: s("usr-no-did"),
        did_hash: None,
        created_at: 0,
        updated_at: 0,
    };

    contract.save_profile(profile);

    let result = contract.get_user_profile(user_address).unwrap();
    assert_eq!(result.did_hash, None);
    assert_eq!(result.off_chain_ref_id, s("usr-no-did"));
}

#[test]
fn missing_profile_reports_not_found() {
    let contract = UserProfileContract::new();
    assert_eq!(contract.get_user_profile(Address(5)).unwrap_err(), Error::UserProfileNotFound);
    assert_eq!(
        contract.get_user_profile_with_privacy(Address(5), Address(6)).unwrap_err(),
        Error::UserProfileNotFound
    );
}
