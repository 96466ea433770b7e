use course_registry::registry::CourseRegistry;
use course_registry::schema::{
    CourseFilters, EditCourseParams, Error, RATE_LIMIT_MAX_CREATIONS, RATE_LIMIT_WINDOW,
};
use course_registry::Address;

fn s(t: &str) -> String {
    String::from(t)
}

fn no_filters() -> CourseFilters {
    CourseFilters {
        min_price: None,
        max_price: None,
        category: None,
        level: None,
        min_duration: None,
        max_duration: None,
    }
}

#[test]
fn scenario_create_course_returns_first_id_unpublished() {
    let mut registry = CourseRegistry::new();
    let course = registry
        .create_course(Address(1), s("r1"), s("h1"), 1000, None, None, None, None, 0)
        .unwrap();
    assert_eq!(course.id, s("1"));
    assert_eq!(course.published, false);
}

#[test]
fn scenario_two_creators_get_sequential_ids() {
    let mut registry = CourseRegistry::new();
    let c1 = registry
        .create_course(Address(1), s("r1"), s("h1"), 1000, None, None, None, None, 0)
        .unwrap();
    let c2 = registry
        .create_course(Address(2), s("r2"), s("h2"), 1000, None, None, None, None, 0)
        .unwrap();
    assert_eq!(c1.id, s("1"));
    assert_eq!(c2.id, s("2"));
}

#[test]
fn scenario_second_module_at_same_position_fails() {
    let mut registry = CourseRegistry::new();
    let creator = Address(1);
    let course = registry
        .create_course(creator, s("r1"), s("h1"), 1000, None, None, None, None, 0)
        .unwrap();
    registry.add_module(creator, &course.id, 1, s("hash-one"), false, 0, 0).unwrap();
    let second = registry.add_module(creator, &course.id, 1, s("hash-two"), false, 1, 0);
    assert_eq!(second.unwrap_err(), Error::DuplicateModulePosition);
}

#[test]
fn scenario_unauthorized_edit_leaves_course_unchanged() {
    let mut registry = CourseRegistry::new();
    let creator = Address(1);
    let intruder = Address(2);
    let course = registry
        .create_course(creator, s("r1"), s("h1"), 1000, None, None, None, None, 0)
        .unwrap();

    let before = registry.get_course(&course.id).unwrap();
    let params = EditCourseParams {
        new_content_hash: Some(s("tampered")),
        new_off_chain_ref_id: None,
        new_price: Some(1),
        new_category: None,
        new_language: None,
        new_published: Some(true),
        new_level: None,
        new_duration_hours: None,
    };
    assert_eq!(registry.edit_course(intruder, &course.id, params).unwrap_err(), Error::Unauthorized);
    let after = registry.get_course(&course.id).unwrap();
    assert_eq!(before, after);
}

#[test]
fn scenario_min_price_above_all_courses_gives_empty_page() {
    let mut registry = CourseRegistry::new();
    let creator = Address(1);
    for i in 0..3 {
        let course = registry
            .create_course(
                creator,
                s(&format!("r{}", i)),
                s("h"),
                500 + i as u128,
                None,
                None,
                None,
                None,
                0,
            )
            .unwrap();
        let params = EditCourseParams {
            new_content_hash: None,
            new_off_chain_ref_id: None,
            new_price: None,
            new_category: None,
            new_language: None,
            new_published: Some(true),
            new_level: None,
            new_duration_hours: None,
        };
        registry.edit_course(creator, &course.id, params).unwrap();
    }
    let mut filters = no_filters();
    filters.min_price = Some(1_000_000);
    let results = registry.list_courses_with_filters(filters, None, None).unwrap();
    assert_eq!(results.len(), 0);
}

#[test]
fn scenario_rate_limit_rejects_excess_creation_in_window() {
    let mut registry = CourseRegistry::new();
    let creator = Address(1);
    let now = 100;
    for i in 0..RATE_LIMIT_MAX_CREATIONS {
        registry
            .create_course(
                creator,
                s(&format!("r{}", i)),
                s("h"),
                1000,
                None,
                None,
                None,
                None,
                now,
            )
            .unwrap();
    }
    let over = registry.create_course(creator, s("r-next"), s("h"), 1000, None, None, None, None, now);
    assert_eq!(over.unwrap_err(), Error::RateLimitExceeded);

    // The rejection consumes no quota and persists nothing: after the
    // window has passed, creation succeeds again.
    let later = now + RATE_LIMIT_WINDOW;
    registry
        .create_course(creator, s("r-later"), s("h"), 1000, None, None, None, None, later)
        .unwrap();
}

#[test]
fn create_course_validation_errors() {
    let mut registry = CourseRegistry::new();
    let creator = Address(1);
    assert_eq!(
        registry
            .create_course(creator, s(""), s("h"), 1000, None, None, None, None, 0)
            .unwrap_err(),
        Error::OffChainRefIdRequired
    );
    assert_eq!(
        registry
            .create_course(creator, s("r"), s(""), 1000, None, None, None, None, 0)
            .unwrap_err(),
        Error::ContentHashRequired
    );
    assert_eq!(
        registry
            .create_course(creator, s("r"), s("h"), 0, None, None, None, None, 0)
            .unwrap_err(),
        Error::InvalidPrice
    );
    assert_eq!(
        registry
            .create_course(creator, s("r"), s("h"), 1000, Some(s("")), None, None, None, 0)
            .unwrap_err(),
        Error::EmptyCategory
    );
    let long_language: String = "x".repeat(51);
    assert_eq!(
        registry
            .create_course(creator, s("r"), s("h"), 1000, None, Some(long_language), None, None, 0)
            .unwrap_err(),
        Error::InvalidLanguageLength
    );
    assert_eq!(
        registry
            .create_course(creator, s("r"), s("h"), 1000, None, None, None, Some(0), 0)
            .unwrap_err(),
        Error::InvalidDurationValue
    );
    assert_eq!(
        registry
            .create_course(creator, s("r"), s("h"), 1000, None, None, None, Some(8761), 0)
            .unwrap_err(),
        Error::InvalidDurationValue
    );
}

#[test]
fn get_course_rejects_unknown_and_noncanonical_ids() {
    let mut registry = CourseRegistry::new();
    registry
        .create_course(Address(1), s("r"), s("h"), 1000, None, None, None, None, 0)
        .unwrap();

    let canonical = s("1");
    assert!(registry.get_course(&canonical).is_ok());

    // A leading zero is a different key: the original stores courses
    // under the exact decimal string the allocator produced.
    let padded = s("01");
    assert_eq!(registry.get_course(&padded).unwrap_err(), Error::CourseNotFound);
    let missing = s("2");
    assert_eq!(registry.get_course(&missing).unwrap_err(), Error::CourseNotFound);
    let word = s("abc");
    assert_eq!(registry.get_course(&word).unwrap_err(), Error::CourseNotFound);
}

#[test]
fn is_course_creator_checks_stored_creator() {
    let mut registry = CourseRegistry::new();
    let creator = Address(1);
    let course = registry
        .create_course(creator, s("r"), s("h"), 1000, None, None, None, None, 0)
        .unwrap();
    assert!(registry.is_course_creator(&course.id, creator));
    assert!(!registry.is_course_creator(&course.id, Address(2)));
    let missing = s("9");
    assert!(!registry.is_course_creator(&missing, creator));
}

#[test]
fn delete_course_removes_course_goals_and_modules() {
    let mut registry = CourseRegistry::new();
    let creator = Address(1);
    let course = registry
        .create_course(creator, s("r1"), s("h1"), 1000, None, None, None, None, 0)
        .unwrap();
    registry.add_module(creator, &course.id, 1, s("module-hash"), false, 2, 0).unwrap();
    registry.add_goal(creator, &course.id, s("goal-hash"), 0).unwrap();

    assert_eq!(
        registry.delete_course(Address(2), &course.id).unwrap_err(),
        Error::Unauthorized
    );
    registry.delete_course(creator, &course.id).unwrap();

    assert_eq!(registry.get_course(&course.id).unwrap_err(), Error::CourseNotFound);
    assert_eq!(registry.list_modules(&course.id).unwrap_err(), Error::CourseIdNotExist);
    assert_eq!(registry.delete_course(creator, &course.id).unwrap_err(), Error::CourseNotFound);
}

#[test]
fn scan_skips_gaps_left_by_deletion() {
    let mut registry = CourseRegistry::new();
    let keep1 = Address(1);
    let gone = Address(2);
    let keep2 = Address(3);
    let c1 = registry
        .create_course(keep1, s("r1"), s("h1"), 1000, None, None, None, None, 0)
        .unwrap();
    let c2 = registry
        .create_course(gone, s("r2"), s("h2"), 1000, None, None, None, None, 0)
        .unwrap();
    let c3 = registry
        .create_course(keep2, s("r3"), s("h3"), 1000, None, None, None, None, 0)
        .unwrap();
    for (who, id) in [(keep1, &c1.id), (gone, &c2.id), (keep2, &c3.id)] {
        let params = EditCourseParams {
            new_content_hash: None,
            new_off_chain_ref_id: None,
            new_price: None,
            new_category: None,
            new_language: None,
            new_published: Some(true),
            new_level: None,
            new_duration_hours: None,
        };
        registry.edit_course(who, id, params).unwrap();
    }
    registry.delete_course(gone, &c2.id).unwrap();

    let listed = registry.list_courses_with_filters(no_filters(), None, None).unwrap();
    assert_eq!(listed.len(), 2);
    assert_eq!(listed[0].id, c1.id);
    assert_eq!(listed[1].id, c3.id);
}
