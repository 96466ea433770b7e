//! Read-only access to on-chain user profiles.  All personal data lives
//! off-chain; a profile holds only the identity, an off-chain reference and
//! an optional decentralized-identity digest.

use vstd::prelude::*;

use crate::Address;
use crate::schema::Error;

verus! {

/// Minimal on-chain user profile.
#[derive(Clone, Debug, PartialEq, Eq)]
pub struct UserProfile {
    /// The user's identity.
    pub address: Address,
    /// Opaque reference to the full record in the off-chain database.
    pub off_chain_ref_id: String,
    /// Optional digest for decentralized-identity verification.
    pub did_hash: Option<String>,
    /// Ledger timestamp at creation.
    pub created_at: u64,
    /// Ledger timestamp of the last update.
    pub updated_at: u64,
}

/// Mathematical image of a `UserProfile`.
pub struct UserProfileV {
    pub address: Address,
    pub off_chain_ref_id: Seq<char>,
    pub did_hash: Option<Seq<char>>,
    pub created_at: u64,
    pub updated_at: u64,
}

impl View for UserProfile {
    type V = UserProfileV;

    open spec fn view(&self) -> UserProfileV {
        (UserProfileV {
            address: self.address,
            off_chain_ref_id: self.off_chain_ref_id@,
            did_hash: self.did_hash.deep_view(),
            created_at: self.created_at,
            updated_at: self.updated_at,
        })
    }
}

impl DeepView for UserProfile {
    type V = UserProfileV;

    open spec fn deep_view(&self) -> UserProfileV {
        self.view()
    }
}

impl UserProfile {
    /// Produces a profile with the same view.
    pub fn duplicate(&self) -> (r: UserProfile)
        ensures
            r@ == self@,
    {
        UserProfile {
            address: self.address,
            off_chain_ref_id: self.off_chain_ref_id.clone(),
            did_hash: crate::schema::clone_opt_string(&self.did_hash),
            created_at: self.created_at,
            updated_at: self.updated_at,
        }
    }
}

/// The profile stored for `a`, if any.
pub open spec fn profile_at(m: Map<crate::store::StoreKey, crate::store::RecordV>, a: Address) -> Option<UserProfileV> {
    if m.contains_key(crate::store::StoreKey::ProfileKey(a)) {
        match m[crate::store::StoreKey::ProfileKey(a)] {
            crate::store::RecordV::ProfileRec(p) => Some(p),
            _ => None,
        }
    } else {
        None
    }
}

/// Profiles are stored under their own identity.
pub open spec fn profiles_wf(m: Map<crate::store::StoreKey, crate::store::RecordV>) -> bool {
    forall|a: Address|
        #[trigger] m.contains_key(crate::store::StoreKey::ProfileKey(a)) ==> (m[
            crate::store::StoreKey::ProfileKey(a)
        ] matches crate::store::RecordV::ProfileRec(p) && p.address == a)
}

/// The read-only user-profile contract state.
pub struct UserProfileContract {
    store: crate::store::KeyStore,
}

impl View for UserProfileContract {
    type V = Map<crate::store::StoreKey, crate::store::RecordV>;

    closed spec fn view(&self) -> Map<crate::store::StoreKey, crate::store::RecordV> {
        self.store@
    }
}

impl UserProfileContract {
    /// Internal invariant of the contract state.
    pub open spec fn wf(&self) -> bool {
        &&& self.inner_wf()
        &&& profiles_wf(self@)
    }

    /// Well-formedness of the underlying store.
    pub closed spec fn inner_wf(&self) -> bool {
        self.store.wf()
    }

    /// An empty contract.
    pub fn new() -> (r: UserProfileContract)
        ensures
            r.wf(),
            r@ == Map::<crate::store::StoreKey, crate::store::RecordV>::empty(),
    {
        UserProfileContract { store: crate::store::KeyStore::new() }
    }

    /// Stores a profile under its own identity, replacing any earlier one.
    pub fn save_profile(&mut self, profile: UserProfile)
        requires
            old(self).wf(),
        ensures
            final(self).wf(),
            final(self)@ == old(self)@.insert(
                crate::store::StoreKey::ProfileKey(profile.address),
                crate::store::RecordV::ProfileRec(profile@),
            ),
    {
        self.store.set(
            crate::store::StoreKey::ProfileKey(profile.address),
            crate::store::Record::ProfileRec(profile),
        );
    }

    /// Retrieves the profile of `user_address`, failing when none is
    /// stored.
    pub fn get_user_profile(&self, user_address: Address) -> (r: Result<UserProfile, Error>)
        requires
            self.wf(),
        ensures
            match r {
                Ok(p) => profile_at(self@, user_address) == Some(p@),
                Err(e) => {
                    &&& e == Error::UserProfileNotFound
                    &&& profile_at(self@, user_address) is None
                },
            },
    {
        match self.store.get(crate::store::StoreKey::ProfileKey(user_address)) {
            Some(crate::store::Record::ProfileRec(p)) => Ok(p.duplicate()),
            _ => Err(Error::UserProfileNotFound),
        }
    }

    /// Retrieves a profile with requester context; no personal data is on
    /// chain, so this returns the same record as `get_user_profile`.
    pub fn get_user_profile_with_privacy(
        &self,
        user_address: Address,
        requester_address: Address,
    ) -> (r: Result<UserProfile, Error>)
        requires
            self.wf(),
        ensures
            match r {
                Ok(p) => profile_at(self@, user_address) == Some(p@),
                Err(e) => {
                    &&& e == Error::UserProfileNotFound
                    &&& profile_at(self@, user_address) is None
                },
            },
    {
        self.get_user_profile(user_address)
    }
}

} // verus!
