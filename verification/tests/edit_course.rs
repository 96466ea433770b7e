use course_registry::registry::CourseRegistry;
use course_registry::schema::{Course, EditCourseParams, Error};
use course_registry::Address;

fn s(t: &str) -> String {
    String::from(t)
}

fn no_edits() -> EditCourseParams {
    EditCourseParams {
        new_content_hash: None,
        new_off_chain_ref_id: None,
        new_price: None,
        new_category: None,
        new_language: None,
        new_published: None,
        new_level: None,
        new_duration_hours: None,
    }
}

fn create_test_course(
    registry: &mut CourseRegistry,
    creator: Address,
    off_chain_ref_id: &str,
    content_hash: &str,
) -> Course {
    registry
        .create_course(
            creator,
            s(off_chain_ref_id),
            s(content_hash),
            1000_u128,
            Some(s("original_category")),
            Some(s("original_language")),
            None,
            None,
            0,
        )
        .unwrap()
}

#[test]
fn test_edit_course_success() {
    let mut registry = CourseRegistry::new();
    let creator = Address(1);

    let course = create_test_course(
        &mut registry,
        creator,
        "original_ref_001",
        "hash_original_aabbccddeeff112233",
    );

    let params = EditCourseParams {
        new_content_hash: Some(s("hash_updated_aabbccddeeff998877")),
        new_off_chain_ref_id: Some(s("updated_ref_002")),
        new_price: Some(2000_u128),
        new_category: Some(Some(s("new_category"))),
        new_language: Some(Some(s("new_language"))),
        new_published: Some(true),
        new_level: None,
        new_duration_hours: None,
    };
    let edited_course = registry.edit_course(creator, &course.id, params).unwrap();

    assert_eq!(edited_course.content_hash, s("hash_updated_aabbccddeeff998877"));
    assert_eq!(edited_course.off_chain_ref_id, s("updated_ref_002"));
    assert_eq!(edited_course.price, 2000_u128);
    assert_eq!(edited_course.category, Some(s("new_category")));
    assert_eq!(edited_course.language, Some(s("new_language")));
    assert_eq!(edited_course.published, true);
    assert_eq!(edited_course.creator, creator);

    let retrieved_course = registry.get_course(&course.id).unwrap();
    assert_eq!(retrieved_course.content_hash, s("hash_updated_aabbccddeeff998877"));
    assert_eq!(retrieved_course.off_chain_ref_id, s("updated_ref_002"));
    assert_eq!(retrieved_course.price, 2000_u128);
    assert_eq!(retrieved_course.published, true);
}

#[test]
fn test_edit_course_partial_fields() {
    let mut registry = CourseRegistry::new();
    let creator = Address(1);

    let course = create_test_course(
        &mut registry,
        creator,
        "original_ref_001",
        "hash_original_aabbccddeeff112233",
    );

    let params = EditCourseParams {
        new_content_hash: Some(s("hash_updated_aabbccddeeff998877")),
        new_off_chain_ref_id: None,
        new_price: Some(2000_u128),
        new_category: None,
        new_language: None,
        new_published: None,
        new_level: None,
        new_duration_hours: None,
    };
    let edited_course = registry.edit_course(creator, &course.id, params).unwrap();

    assert_eq!(edited_course.content_hash, s("hash_updated_aabbccddeeff998877"));
    assert_eq!(edited_course.off_chain_ref_id, s("original_ref_001"));
    assert_eq!(edited_course.price, 2000_u128);
    assert_eq!(edited_course.category, Some(s("original_category")));
    assert_eq!(edited_course.language, Some(s("original_language")));
    assert_eq!(edited_course.published, false);
}

#[test]
fn test_edit_course_update_off_chain_ref_id_only() {
    let mut registry = CourseRegistry::new();
    let creator = Address(1);

    let course = create_test_course(
        &mut registry,
        creator,
        "original_ref_001",
        "hash_original_aabbccddeeff112233",
    );

    let params = EditCourseParams {
        new_content_hash: None,
        new_off_chain_ref_id: Some(s("new_ref_v2_002")),
        new_price: None,
        new_category: None,
        new_language: None,
        new_published: None,
        new_level: None,
        new_duration_hours: None,
    };
    let edited_course = registry.edit_course(creator, &course.id, params).unwrap();

    assert_eq!(edited_course.off_chain_ref_id, s("new_ref_v2_002"));
    assert_eq!(edited_course.content_hash, s("hash_original_aabbccddeeff112233"));
}

#[test]
fn edit_course_errors_name_their_cause() {
    let mut registry = CourseRegistry::new();
    let creator = Address(1);
    let course = create_test_course(
        &mut registry,
        creator,
        "original_ref_001",
        "hash_original_aabbccddeeff112233",
    );

    let missing = s("7");
    assert_eq!(
        registry.edit_course(creator, &missing, no_edits()).unwrap_err(),
        Error::CourseNotFound
    );
    assert_eq!(
        registry.edit_course(Address(2), &course.id, no_edits()).unwrap_err(),
        Error::Unauthorized
    );
    let mut p = no_edits();
    p.new_content_hash = Some(s(""));
    assert_eq!(registry.edit_course(creator, &course.id, p).unwrap_err(), Error::ContentHashRequired);
    let mut p = no_edits();
    p.new_off_chain_ref_id = Some(s(""));
    assert_eq!(
        registry.edit_course(creator, &course.id, p).unwrap_err(),
        Error::OffChainRefIdRequired
    );
    let mut p = no_edits();
    p.new_price = Some(0);
    assert_eq!(registry.edit_course(creator, &course.id, p).unwrap_err(), Error::InvalidPrice);
}

#[test]
fn archive_course_hides_from_listings_but_not_lookup() {
    let mut registry = CourseRegistry::new();
    let creator = Address(1);
    let course = create_test_course(
        &mut registry,
        creator,
        "original_ref_001",
        "hash_original_aabbccddeeff112233",
    );
    let mut p = no_edits();
    p.new_published = Some(true);
    registry.edit_course(creator, &course.id, p).unwrap();

    let archived = registry.archive_course(creator, &course.id).unwrap();
    assert!(archived.is_archived);

    let retrieved = registry.get_course(&course.id).unwrap();
    assert!(retrieved.is_archived);

    let filters = course_registry::schema::CourseFilters {
        min_price: None,
        max_price: None,
        category: None,
        level: None,
        min_duration: None,
        max_duration: None,
    };
    let listed = registry.list_courses_with_filters(filters, None, None).unwrap();
    assert_eq!(listed.len(), 0);
}
