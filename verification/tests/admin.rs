use course_registry::access::CourseAccessContract;
use course_registry::registry::CourseRegistry;
use course_registry::schema::Error;
use course_registry::Address;

fn s(t: &str) -> String {
    String::from(t)
}

#[test]
fn versions_with_same_major_segment_are_compatible() {
    let registry = CourseRegistry::new();
    assert!(registry.is_version_compatible(&s("1.0.0"), &s("1.5.2")));
    assert!(registry.is_version_compatible(&s("2.3.1"), &s("2.0.0")));
    assert!(!registry.is_version_compatible(&s("1.0.0"), &s("2.0.0")));
    assert!(!registry.is_version_compatible(&s("10.0.0"), &s("1.0.0")));
}

#[test]
fn contract_version_and_default_history() {
    let registry = CourseRegistry::new();
    assert_eq!(registry.get_contract_version(), s("1.0.0"));
    let history = registry.get_version_history();
    assert_eq!(history, vec![s("1.0.0")]);
    assert_eq!(registry.get_migration_status(), s("none"));
}

#[test]
fn migration_requires_admin_and_records_outcome() {
    let mut registry = CourseRegistry::new();
    let caller = Address(1);

    assert_eq!(
        registry.migrate_course_data(caller, &s("1.0.0"), &s("1.1.0"), false).unwrap_err(),
        Error::Unauthorized
    );
    assert_eq!(registry.get_migration_status(), s("none"));

    // An incompatible pair fails and records the failure.
    assert_eq!(
        registry.migrate_course_data(caller, &s("1.0.0"), &s("2.0.0"), true).unwrap(),
        false
    );
    assert_eq!(registry.get_migration_status(), s("failed"));
    assert_eq!(registry.get_version_history(), vec![s("1.0.0")]);

    // A compatible pair appends the target version and completes.
    assert_eq!(
        registry.migrate_course_data(caller, &s("1.0.0"), &s("1.1.0"), true).unwrap(),
        true
    );
    assert_eq!(registry.get_migration_status(), s("completed"));
    assert_eq!(registry.get_version_history(), vec![s("1.0.0"), s("1.1.0")]);
}

#[test]
fn access_contract_initializes_once() {
    let mut access = CourseAccessContract::new();
    let owner = Address(1);

    assert_eq!(
        access.set_config(owner, Address(10), Address(11)).unwrap_err(),
        Error::NotInitialized
    );
    access.initialize(owner, Address(10), Address(11)).unwrap();
    assert_eq!(
        access.initialize(Address(2), Address(12), Address(13)).unwrap_err(),
        Error::AlreadyInitialized
    );

    assert_eq!(
        access.set_config(Address(2), Address(12), Address(13)).unwrap_err(),
        Error::Unauthorized
    );
    access.set_config(owner, Address(12), Address(13)).unwrap();
}

#[test]
fn access_contract_saves_profiles_and_versions() {
    let mut access = CourseAccessContract::new();
    assert_eq!(
        access.save_user_profile(s(""), Address(3)).unwrap_err(),
        Error::OffChainRefIdRequired
    );
    access.save_user_profile(s("usr-ref-1"), Address(3)).unwrap();

    assert_eq!(access.get_contract_version(), s("1.0.0"));
    assert!(access.is_version_compatible(&s("1.0.0"), &s("1.9.9")));
    assert_eq!(
        access.migrate_access_data(Address(1), &s("1.0.0"), &s("1.1.0"), true).unwrap(),
        true
    );
    assert_eq!(access.get_migration_status(), s("completed"));
    assert_eq!(access.get_version_history(), vec![s("1.0.0"), s("1.1.0")]);
}

#[test]
fn categories_allocate_sequentially_with_unique_names() {
    let mut registry = CourseRegistry::new();
    let caller = Address(1);

    assert_eq!(
        registry.create_course_category(caller, s(""), None).unwrap_err(),
        Error::EmptyCategoryName
    );

    let id1 = registry
        .create_course_category(caller, s("Programming"), Some(s("Computer programming courses")))
        .unwrap();
    let id2 = registry.create_course_category(caller, s("Math"), None).unwrap();
    assert_eq!(id1, 1);
    assert_eq!(id2, 2);

    assert_eq!(
        registry.create_course_category(caller, s("Programming"), None).unwrap_err(),
        Error::DuplicateCategoryName
    );

    let got = registry.get_course_category(1).unwrap();
    assert_eq!(got.name, s("Programming"));
    assert_eq!(got.description, Some(s("Computer programming courses")));
    assert!(registry.get_course_category(3).is_none());

    let all = registry.list_categories();
    assert_eq!(all.len(), 2);
    assert_eq!(all[0].name, s("Programming"));
    assert_eq!(all[1].name, s("Math"));
}

#[test]
fn prerequisites_are_validated_and_kept_in_order() {
    let mut registry = CourseRegistry::new();
    let creator = Address(1);
    let a = registry
        .create_course(creator, s("ra"), s("ha"), 1000, None, None, None, None, 0)
        .unwrap();
    let b = registry
        .create_course(creator, s("rb"), s("hb"), 1000, None, None, None, None, 0)
        .unwrap();
    let c = registry
        .create_course(creator, s("rc"), s("hc"), 1000, None, None, None, None, 0)
        .unwrap();

    assert_eq!(
        registry
            .add_prerequisite(creator, &c.id, vec![], false)
            .unwrap_err(),
        Error::EmptyPrerequisiteList
    );
    assert_eq!(
        registry
            .add_prerequisite(creator, &c.id, vec![c.id.clone()], false)
            .unwrap_err(),
        Error::SelfPrerequisite
    );
    assert_eq!(
        registry
            .add_prerequisite(creator, &c.id, vec![s("42")], false)
            .unwrap_err(),
        Error::PrerequisiteCourseNotFound
    );
    assert_eq!(
        registry
            .add_prerequisite(Address(2), &c.id, vec![a.id.clone()], false)
            .unwrap_err(),
        Error::Unauthorized
    );

    registry
        .add_prerequisite(creator, &c.id, vec![a.id.clone(), b.id.clone()], false)
        .unwrap();
    assert_eq!(
        registry.get_prerequisites_by_course(&c.id).unwrap(),
        vec![a.id.clone(), b.id.clone()]
    );

    registry.edit_prerequisite(creator, &c.id, vec![b.id.clone()], false).unwrap();
    assert_eq!(registry.get_prerequisites_by_course(&c.id).unwrap(), vec![b.id.clone()]);

    assert_eq!(
        registry.remove_prerequisite(creator, &c.id, &a.id).unwrap_err(),
        Error::PrerequisiteNotFound
    );
    registry.remove_prerequisite(creator, &c.id, &b.id).unwrap();
    assert_eq!(registry.get_prerequisites_by_course(&c.id).unwrap(), Vec::<String>::new());
}
