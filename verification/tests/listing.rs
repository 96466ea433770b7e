use course_registry::registry::CourseRegistry;
use course_registry::schema::{
    Course, CourseFilters, EditCourseParams, Error, DEFAULT_COURSE_PRICE, FILTER_MIN_PRICE,
};
use course_registry::Address;

fn s(t: &str) -> String {
    String::from(t)
}

fn no_filters() -> CourseFilters {
    CourseFilters {
        min_price: None,
        max_price: None,
        category: None,
        level: None,
        min_duration: None,
        max_duration: None,
    }
}

fn create_course(registry: &mut CourseRegistry, creator: Address, ref_id: &str) -> Course {
    create_priced_course(registry, creator, ref_id, 1000)
}

fn create_priced_course(
    registry: &mut CourseRegistry,
    creator: Address,
    ref_id: &str,
    price: u128,
) -> Course {
    registry
        .create_course(creator, s(ref_id), s("abc123hash"), price, None, None, None, None, 0)
        .unwrap()
}

fn publish(registry: &mut CourseRegistry, creator: Address, course_id: &String) {
    let params = EditCourseParams {
        new_content_hash: None,
        new_off_chain_ref_id: None,
        new_price: None,
        new_category: None,
        new_language: None,
        new_published: Some(true),
        new_level: None,
        new_duration_hours: None,
    };
    registry.edit_course(creator, course_id, params).unwrap();
}

#[test]
fn test_empty_list_no_courses() {
    let registry = CourseRegistry::new();
    let results = registry.list_courses_with_filters(no_filters(), None, None).unwrap();
    assert_eq!(results.len(), 0);
}

#[test]
fn test_single_course_no_filters() {
    let mut registry = CourseRegistry::new();
    let creator = Address(1);

    let course = create_priced_course(&mut registry, creator, "ref-001", 100);
    publish(&mut registry, creator, &course.id);

    let results = registry.list_courses_with_filters(no_filters(), None, None).unwrap();
    assert_eq!(results.len(), 1);
    assert_eq!(results[0].price, 100);
}

#[test]
fn test_price_filter_excludes_course() {
    let mut registry = CourseRegistry::new();
    let creator = Address(1);

    create_priced_course(&mut registry, creator, "ref-001", 100);

    let mut filters = no_filters();
    filters.min_price = Some(FILTER_MIN_PRICE);
    filters.max_price = Some(DEFAULT_COURSE_PRICE);

    let results = registry.list_courses_with_filters(filters, None, None).unwrap();
    assert_eq!(results.len(), 0);
}

#[test]
fn test_pagination_limit() {
    let mut registry = CourseRegistry::new();
    let creator = Address(1);

    create_priced_course(&mut registry, creator, "ref-001", 100);

    let results = registry.list_courses_with_filters(no_filters(), Some(0), None).unwrap();
    assert_eq!(results.len(), 0);
}

#[test]
fn test_get_courses_by_instructor() {
    let mut registry = CourseRegistry::new();
    let instructor1 = Address(1);
    let instructor2 = Address(2);

    let course1 = create_course(&mut registry, instructor1, "ref-001");
    let course2 = create_course(&mut registry, instructor2, "ref-002");
    let course3 = create_course(&mut registry, instructor1, "ref-003");

    let instructor1_courses = registry.get_courses_by_instructor(instructor1);
    assert_eq!(instructor1_courses.len(), 2);
    assert_eq!(instructor1_courses[0], course1);
    assert_eq!(instructor1_courses[1], course3);

    let instructor2_courses = registry.get_courses_by_instructor(instructor2);
    assert_eq!(instructor2_courses.len(), 1);
    assert_eq!(instructor2_courses[0], course2);
}

#[test]
fn test_get_courses_by_instructor_no_courses() {
    let registry = CourseRegistry::new();
    let courses = registry.get_courses_by_instructor(Address(9));
    assert_eq!(courses.len(), 0);
}

#[test]
fn test_get_courses_by_instructor_with_archived() {
    let mut registry = CourseRegistry::new();
    let instructor = Address(1);

    let course1 = create_course(&mut registry, instructor, "ref-001");
    let course2 = create_course(&mut registry, instructor, "ref-002");

    registry.archive_course(instructor, &course2.id).unwrap();
    let courses = registry.get_courses_by_instructor(instructor);
    assert_eq!(courses.len(), 1);
    assert_eq!(courses[0], course1);
}

#[test]
fn pagination_window_returns_expected_slice() {
    let mut registry = CourseRegistry::new();
    for i in 0..8u64 {
        let creator = Address(50 + i);
        let course = create_priced_course(&mut registry, creator, &format!("ref-{}", i), 100 + i as u128);
        publish(&mut registry, creator, &course.id);
    }

    // offset 2, limit 3 returns the 3rd through 5th matches in id order.
    let page = registry.list_courses_with_filters(no_filters(), Some(3), Some(2)).unwrap();
    assert_eq!(page.len(), 3);
    assert_eq!(page[0].id, s("3"));
    assert_eq!(page[1].id, s("4"));
    assert_eq!(page[2].id, s("5"));

    // An offset at or beyond the match count gives an empty page.
    let beyond = registry.list_courses_with_filters(no_filters(), Some(3), Some(8)).unwrap();
    assert_eq!(beyond.len(), 0);

    // The effective page size is capped regardless of the requested limit.
    let capped = registry.list_courses_with_filters(no_filters(), Some(100), None).unwrap();
    assert_eq!(capped.len(), 8);
}

#[test]
fn page_size_is_capped_at_twenty() {
    let mut registry = CourseRegistry::new();
    for i in 0..25u64 {
        let creator = Address(100 + i);
        let course = create_priced_course(&mut registry, creator, &format!("ref-{}", i), 500);
        publish(&mut registry, creator, &course.id);
    }
    let page = registry.list_courses_with_filters(no_filters(), Some(100), None).unwrap();
    assert_eq!(page.len(), 20);
    assert_eq!(page[0].id, s("1"));
    assert_eq!(page[19].id, s("20"));
}

#[test]
fn filters_apply_conjunctively() {
    let mut registry = CourseRegistry::new();
    let creator = Address(1);

    let c1 = registry
        .create_course(
            creator,
            s("ref-a"),
            s("hash-a"),
            500,
            Some(s("math")),
            None,
            Some(s("beginner")),
            Some(10),
            0,
        )
        .unwrap();
    publish(&mut registry, creator, &c1.id);
    let c2 = registry
        .create_course(
            creator,
            s("ref-b"),
            s("hash-b"),
            1500,
            Some(s("math")),
            None,
            Some(s("advanced")),
            None,
            0,
        )
        .unwrap();
    publish(&mut registry, creator, &c2.id);

    let mut filters = no_filters();
    filters.category = Some(s("math"));
    filters.level = Some(s("beginner"));
    let results = registry.list_courses_with_filters(filters, None, None).unwrap();
    assert_eq!(results.len(), 1);
    assert_eq!(results[0].id, c1.id);

    // An absent duration fails a duration filter.
    let mut filters = no_filters();
    filters.min_duration = Some(1);
    let results = registry.list_courses_with_filters(filters, None, None).unwrap();
    assert_eq!(results.len(), 1);
    assert_eq!(results[0].id, c1.id);
}

#[test]
fn unpublished_courses_never_appear() {
    let mut registry = CourseRegistry::new();
    let creator = Address(1);
    create_course(&mut registry, creator, "ref-unpublished");
    let results = registry.list_courses_with_filters(no_filters(), None, None).unwrap();
    assert_eq!(results.len(), 0);
}

#[test]
fn pagination_arguments_are_validated() {
    let registry = CourseRegistry::new();
    assert_eq!(
        registry.list_courses_with_filters(no_filters(), Some(101), None).unwrap_err(),
        Error::InvalidLimitValue
    );
    assert_eq!(
        registry.list_courses_with_filters(no_filters(), None, Some(10_001)).unwrap_err(),
        Error::InvalidOffsetValue
    );
}

#[test]
fn repeated_reads_of_unchanged_state_are_identical() {
    let mut registry = CourseRegistry::new();
    let creator = Address(1);
    for i in 0..4 {
        let course = create_priced_course(&mut registry, creator, &format!("ref-{}", i), 700);
        publish(&mut registry, creator, &course.id);
    }

    let first = registry.list_courses_with_filters(no_filters(), Some(10), Some(1)).unwrap();
    let second = registry.list_courses_with_filters(no_filters(), Some(10), Some(1)).unwrap();
    assert_eq!(first, second);

    let course_id = s("2");
    assert_eq!(registry.get_course(&course_id).unwrap(), registry.get_course(&course_id).unwrap());
    assert_eq!(
        registry.list_modules(&course_id).unwrap(),
        registry.list_modules(&course_id).unwrap()
    );
}
