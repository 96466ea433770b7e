use course_registry::registry::CourseRegistry;
use course_registry::schema::{Course, CourseModule, Error};
use course_registry::Address;

fn s(t: &str) -> String {
    String::from(t)
}

fn create_course(registry: &mut CourseRegistry, creator: Address) -> Course {
    registry
        .create_course(
            creator,
            s("ref_001"),
            s("a1b2c3d4e5f6a1b2c3d4e5f6a1b2c3d4"),
            1000_u128,
            None,
            None,
            None,
            None,
            0,
        )
        .unwrap()
}

#[test]
fn test_add_module_success_course_creator() {
    let mut registry = CourseRegistry::new();
    let creator = Address(1);
    let course = create_course(&mut registry, creator);

    let content_hash = s("module_hash_aabbccddee1122334455");
    let module = registry
        .add_module(creator, &course.id, 1, content_hash.clone(), false, 0, 0)
        .unwrap();

    assert_eq!(module.course_id, course.id);
    assert_eq!(module.position, 1);
    assert_eq!(module.content_hash, content_hash);
}

#[test]
fn test_add_module_success_admin() {
    let mut registry = CourseRegistry::new();
    let creator = Address(1);
    let course = create_course(&mut registry, creator);

    let content_hash = s("module_hash_aabbccddee1122334455");
    let module = registry
        .add_module(creator, &course.id, 1, content_hash.clone(), false, 0, 0)
        .unwrap();

    assert_eq!(module.course_id, course.id);
    assert_eq!(module.position, 1);
    assert_eq!(module.content_hash, content_hash);
}

#[test]
fn test_add_module_generates_unique_ids() {
    let mut registry = CourseRegistry::new();
    let creator = Address(1);
    let course = create_course(&mut registry, creator);

    let module1 = registry
        .add_module(creator, &course.id, 1, s("hash_module_one_aabbccddeeff1122"), false, 0, 0)
        .unwrap();
    let module2 = registry
        .add_module(creator, &course.id, 2, s("hash_module_two_aabbccddeeff3344"), false, 0, 0)
        .unwrap();

    assert_ne!(module1.id, module2.id);
}

#[test]
fn test_add_module_storage_key_format() {
    let mut registry = CourseRegistry::new();
    let creator = Address(1);
    let course = create_course(&mut registry, creator);

    let content_hash = s("module_hash_aabbccddee1122334455");
    let module = registry
        .add_module(creator, &course.id, 1, content_hash, false, 0, 0)
        .unwrap();

    let listed: Vec<CourseModule> = registry.list_modules(&course.id).unwrap();
    assert!(listed.iter().any(|m| m.id == module.id));
}

#[test]
fn test_course_registry_list_modules_single() {
    let module = CourseModule {
        id: s("test_module_123"),
        course_id: s("test_course_123"),
        position: 0,
        content_hash: s("sha256_intro_to_blockchain"),
        created_at: 0,
    };
    assert_eq!(module.id, s("test_module_123"));
    assert_eq!(module.course_id, s("test_course_123"));
    assert_eq!(module.position, 0);
}

#[test]
fn module_id_embeds_course_position_and_sequence() {
    let mut registry = CourseRegistry::new();
    let creator = Address(1);
    let course = create_course(&mut registry, creator);

    let module = registry
        .add_module(creator, &course.id, 5, s("hash_five_aabbccddeeff11223344aa"), false, 42, 7)
        .unwrap();
    assert_eq!(module.id, s("module_1_5_42"));
    assert_eq!(module.created_at, 7);
}

#[test]
fn duplicate_module_position_is_rejected() {
    let mut registry = CourseRegistry::new();
    let creator = Address(1);
    let course = create_course(&mut registry, creator);

    let hash = s("module_hash_aabbccddee1122334455");
    registry.add_module(creator, &course.id, 1, hash, false, 3, 0).unwrap();

    let second = registry.add_module(
        creator,
        &course.id,
        1,
        s("different_hash_aabbccddee11223344"),
        false,
        4,
        0,
    );
    assert_eq!(second.unwrap_err(), Error::DuplicateModulePosition);
}

#[test]
fn add_module_rejects_bad_arguments() {
    let mut registry = CourseRegistry::new();
    let creator = Address(1);
    let course = create_course(&mut registry, creator);

    let empty_id = s("");
    assert_eq!(
        registry
            .add_module(creator, &empty_id, 1, s("h"), false, 0, 0)
            .unwrap_err(),
        Error::EmptyCourseId
    );
    assert_eq!(
        registry
            .add_module(creator, &course.id, 1, s(""), false, 0, 0)
            .unwrap_err(),
        Error::ContentHashRequired
    );
    assert_eq!(
        registry
            .add_module(creator, &course.id, 10_001, s("h"), false, 0, 0)
            .unwrap_err(),
        Error::InvalidModulePosition
    );
    let missing = s("99");
    assert_eq!(
        registry
            .add_module(creator, &missing, 1, s("h"), false, 0, 0)
            .unwrap_err(),
        Error::CourseIdNotExist
    );
    assert_eq!(
        registry
            .add_module(Address(2), &course.id, 2, s("h"), false, 0, 0)
            .unwrap_err(),
        Error::Unauthorized
    );
}

#[test]
fn remove_module_removes_exactly_the_named_module() {
    let mut registry = CourseRegistry::new();
    let creator = Address(1);
    let course = create_course(&mut registry, creator);

    let module = registry
        .add_module(creator, &course.id, 1, s("hash_one_aabbccddeeff112233445566"), false, 0, 0)
        .unwrap();
    registry
        .add_module(creator, &course.id, 2, s("hash_two_aabbccddeeff112233445566"), false, 1, 0)
        .unwrap();

    registry.remove_module(&module.id).unwrap();

    let listed = registry.list_modules(&course.id).unwrap();
    assert_eq!(listed.len(), 1);
    assert_eq!(listed[0].position, 2);

    assert_eq!(registry.remove_module(&module.id).unwrap_err(), Error::ModuleNotFound);
    let nonsense = s("not_a_module_id");
    assert_eq!(registry.remove_module(&nonsense).unwrap_err(), Error::ModuleNotFound);
}

#[test]
fn list_modules_orders_by_position() {
    let mut registry = CourseRegistry::new();
    let creator = Address(1);
    let course = create_course(&mut registry, creator);

    registry
        .add_module(creator, &course.id, 7, s("hash_c_aabbccddeeff1122334455aabb"), false, 30, 0)
        .unwrap();
    registry
        .add_module(creator, &course.id, 2, s("hash_a_aabbccddeeff1122334455aabb"), false, 10, 0)
        .unwrap();
    registry
        .add_module(creator, &course.id, 4, s("hash_b_aabbccddeeff1122334455aabb"), false, 20, 0)
        .unwrap();

    let listed = registry.list_modules(&course.id).unwrap();
    assert_eq!(listed.len(), 3);
    assert_eq!(listed[0].position, 2);
    assert_eq!(listed[1].position, 4);
    assert_eq!(listed[2].position, 7);
}

#[test]
fn list_modules_omits_sequence_numbers_beyond_probe_range() {
    let mut registry = CourseRegistry::new();
    let creator = Address(1);
    let course = create_course(&mut registry, creator);

    // Inserted under a ledger sequence number past the probed range: the
    // module is retrievable by exact identifier but silently absent from
    // the listing.
    let module = registry
        .add_module(creator, &course.id, 1, s("hash_far_aabbccddeeff112233445566"), false, 5000, 0)
        .unwrap();
    assert_eq!(module.id, s("module_1_1_5000"));

    let listed = registry.list_modules(&course.id).unwrap();
    assert_eq!(listed.len(), 0);

    // The exact key still works: removal finds it.
    registry.remove_module(&module.id).unwrap();
}
