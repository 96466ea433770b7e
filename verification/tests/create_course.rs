use course_registry::registry::CourseRegistry;
use course_registry::schema::{Course, DEFAULT_COURSE_PRICE};
use course_registry::Address;

fn s(t: &str) -> String {
    String::from(t)
}

#[test]
fn test_generate_course_id() {
    let mut registry = CourseRegistry::new();
    registry.generate_course_id();
    let id = registry.generate_course_id();
    assert_eq!(id, 2);
}

#[test]
fn test_add_course_success() {
    let mut registry = CourseRegistry::new();
    let creator = Address(1);

    let off_chain_ref_id = s("course_ref_001");
    let content_hash = s("a1b2c3d4e5f6a1b2c3d4e5f6a1b2c3d4");
    let price = 1000_u128;
    let category = Some(s("category"));
    let language = Some(s("language"));

    let course: Course = registry
        .create_course(
            creator,
            off_chain_ref_id.clone(),
            content_hash.clone(),
            price,
            category.clone(),
            language.clone(),
            None,
            None,
            0,
        )
        .unwrap();

    let course = registry.get_course(&course.id).unwrap();
    assert_eq!(course.off_chain_ref_id, off_chain_ref_id);
    assert_eq!(course.content_hash, content_hash);
    assert_eq!(course.id, s("1"));
    assert_eq!(course.price, price);
    assert_eq!(course.category, category);
    assert_eq!(course.language, language);
    assert!(!course.published);
}

#[test]
fn test_add_course_success_multiple() {
    let mut registry = CourseRegistry::new();
    let price: u128 = DEFAULT_COURSE_PRICE;
    let another_price: u128 = 2000;

    registry
        .create_course(
            Address(10),
            s("ref_001"),
            s("hash_aaaaaaaaaaaaaaaaaaaaaaaaaaaa01"),
            price,
            None,
            None,
            None,
            None,
            0,
        )
        .unwrap();

    let course2 = registry
        .create_course(
            Address(11),
            s("ref_002"),
            s("hash_aaaaaaaaaaaaaaaaaaaaaaaaaaaa02"),
            another_price,
            None,
            None,
            None,
            None,
            0,
        )
        .unwrap();

    let stored_course = registry.get_course(&course2.id).unwrap();

    assert_eq!(stored_course.off_chain_ref_id, s("ref_002"));
    assert_eq!(stored_course.id, s("2"));
    assert_eq!(stored_course.price, another_price);
}

#[test]
fn test_create_course_with_maximum_price() {
    let mut registry = CourseRegistry::new();
    let max_price = u128::MAX;

    let course = registry
        .create_course(
            Address(1),
            s("premium_ref_001"),
            s("hash_aaaaaaaaaaaaaaaaaaaaaaaaaaaa01"),
            max_price,
            None,
            None,
            None,
            None,
            0,
        )
        .unwrap();
    assert_eq!(course.price, max_price);
    assert_eq!(course.id, s("1"));
}

#[test]
fn test_create_course_with_all_optional_fields() {
    let mut registry = CourseRegistry::new();
    let price: u128 = 3000;
    let category = Some(s("Web Development"));
    let language = Some(s("Spanish"));
    let level = Some(s("Intermediate"));
    let duration_hours = Some(40);

    let course = registry
        .create_course(
            Address(1),
            s("complete_ref_001"),
            s("hash_complete_aaaaabbbbccccddddeee"),
            price,
            category.clone(),
            language.clone(),
            level.clone(),
            duration_hours,
            0,
        )
        .unwrap();
    assert_eq!(course.off_chain_ref_id, s("complete_ref_001"));
    assert_eq!(course.price, price);
    assert_eq!(course.category, category);
    assert_eq!(course.language, language);
    assert_eq!(course.level, level);
    assert_eq!(course.duration_hours, duration_hours);
    assert!(!course.published);
}

#[test]
fn test_create_course_with_partial_optional_fields() {
    let mut registry = CourseRegistry::new();
    let price: u128 = 1800;
    let category = Some(s("Data Science"));

    let course = registry
        .create_course(
            Address(1),
            s("partial_ref_001"),
            s("hash_partial_aaaaabbbbccccddddeeee"),
            price,
            category.clone(),
            None,
            None,
            None,
            0,
        )
        .unwrap();
    assert_eq!(course.price, price);
    assert_eq!(course.category, category);
    assert_eq!(course.language, None);
}

#[test]
fn test_create_multiple_courses_sequential_ids() {
    let mut registry = CourseRegistry::new();
    let price: u128 = DEFAULT_COURSE_PRICE;

    let course1 = registry
        .create_course(
            Address(21),
            s("ref_001"),
            s("hash_aaaaaaaaaaaaaaaaaaaaaaaaaaaa01"),
            price,
            None,
            None,
            None,
            None,
            0,
        )
        .unwrap();
    let course2 = registry
        .create_course(
            Address(22),
            s("ref_002"),
            s("hash_aaaaaaaaaaaaaaaaaaaaaaaaaaaa02"),
            price,
            None,
            None,
            None,
            None,
            0,
        )
        .unwrap();
    let course3 = registry
        .create_course(
            Address(23),
            s("ref_003"),
            s("hash_aaaaaaaaaaaaaaaaaaaaaaaaaaaa03"),
            price,
            None,
            None,
            None,
            None,
            0,
        )
        .unwrap();

    assert_eq!(course1.id, s("1"));
    assert_eq!(course2.id, s("2"));
    assert_eq!(course3.id, s("3"));
}

#[test]
fn test_create_course_with_unicode_ref_id() {
    let mut registry = CourseRegistry::new();
    let price: u128 = 2000;
    let language = Some(s("Español"));

    let course = registry
        .create_course(
            Address(1),
            s("curso_programacion_espanol_001"),
            s("hash_espanol_aaabbbbccccddddeeeeff"),
            price,
            None,
            language.clone(),
            None,
            None,
            0,
        )
        .unwrap();
    assert_eq!(course.language, language);
    assert_eq!(course.price, price);
}

#[test]
fn test_create_course_content_hash_is_stored() {
    let mut registry = CourseRegistry::new();
    let expected_hash = s("deadbeef1234567890abcdef12345678");

    let course = registry
        .create_course(
            Address(1),
            s("integrity_ref_001"),
            expected_hash.clone(),
            1000_u128,
            None,
            None,
            None,
            None,
            0,
        )
        .unwrap();

    let stored = registry.get_course(&course.id).unwrap();
    assert_eq!(stored.content_hash, expected_hash);
}

#[test]
fn identifiers_use_multi_digit_decimal_form() {
    let mut registry = CourseRegistry::new();
    for i in 0..12u64 {
        let course = registry
            .create_course(
                Address(200 + i),
                s(&format!("ref_{}", i)),
                s("hash_aaaaaaaaaaaaaaaaaaaaaaaaaaaa09"),
                DEFAULT_COURSE_PRICE,
                None,
                None,
                None,
                None,
                0,
            )
            .unwrap();
        if i == 9 {
            assert_eq!(course.id, s("10"));
        }
        if i == 11 {
            assert_eq!(course.id, s("12"));
        }
    }
    let twelve = s("12");
    assert_eq!(registry.get_course(&twelve).unwrap().off_chain_ref_id, s("ref_11"));
}
