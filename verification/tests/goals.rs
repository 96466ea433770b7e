use course_registry::registry::CourseRegistry;
use course_registry::schema::{Course, Error};
use course_registry::Address;

fn s(t: &str) -> String {
    String::from(t)
}

fn create_test_course(registry: &mut CourseRegistry, creator: Address) -> Course {
    registry
        .create_course(
            creator,
            s("off_chain_ref_001"),
            s("a1b2c3d4e5f6a1b2c3d4e5f6a1b2c3d4"),
            1000_u128,
            Some(s("category")),
            Some(s("language")),
            None,
            None,
            0,
        )
        .unwrap()
}

#[test]
fn test_add_goal_success() {
    let mut registry = CourseRegistry::new();
    let creator = Address(1);
    let course = create_test_course(&mut registry, creator);

    let content_hash = s("deadbeefdeadbeefdeadbeefdeadbeef");
    let goal = registry.add_goal(creator, &course.id, content_hash.clone(), 0).unwrap();

    assert_eq!(goal.course_id, course.id);
    assert_eq!(goal.content_hash, content_hash);
    assert_eq!(goal.created_by, creator);
}

#[test]
fn test_add_multiple_goals() {
    let mut registry = CourseRegistry::new();
    let creator = Address(1);
    let course = create_test_course(&mut registry, creator);

    let hash1 = s("aaaaaaaaaaaaaaaaaaaaaaaaaaaaaaa1");
    let goal1 = registry.add_goal(creator, &course.id, hash1.clone(), 0).unwrap();

    let hash2 = s("bbbbbbbbbbbbbbbbbbbbbbbbbbbbbbb2");
    let goal2 = registry.add_goal(creator, &course.id, hash2.clone(), 0).unwrap();

    assert_eq!(goal1.course_id, course.id);
    assert_eq!(goal1.content_hash, hash1);
    assert_eq!(goal1.created_by, creator);

    assert_eq!(goal2.course_id, course.id);
    assert_eq!(goal2.content_hash, hash2);
    assert_eq!(goal2.created_by, creator);

    assert!(goal2.created_at >= goal1.created_at);
    assert_ne!(goal1.goal_id, goal2.goal_id);
}

#[test]
fn test_edit_goal_success() {
    let mut registry = CourseRegistry::new();
    let creator = Address(1);
    let course = create_test_course(&mut registry, creator);

    let initial_hash = s("goal_hash_aabbccddeeff11223344");
    let goal = registry.add_goal(creator, &course.id, initial_hash, 0).unwrap();

    let updated_hash = s("goal_hash_updated_ffeeddccbb5544");
    let edited_goal = registry
        .edit_goal(creator, &course.id, &goal.goal_id, updated_hash.clone())
        .unwrap();

    assert_eq!(edited_goal.content_hash, updated_hash);
    assert_eq!(edited_goal.course_id, course.id);
    assert_eq!(edited_goal.created_by, creator);
}

#[test]
fn test_remove_goal_success() {
    let mut registry = CourseRegistry::new();
    let creator = Address(1);
    let course = create_test_course(&mut registry, creator);

    let goal_content_hash = s("sha256_goal_basics_of_rust");
    let goal = registry.add_goal(creator, &course.id, goal_content_hash, 0).unwrap();

    registry.remove_goal(creator, &course.id, &goal.goal_id).unwrap();
}

#[test]
fn test_remove_multiple_goals() {
    let mut registry = CourseRegistry::new();
    let creator = Address(1);
    let course = create_test_course(&mut registry, creator);

    let goal1 = registry.add_goal(creator, &course.id, s("sha256_goal1"), 0).unwrap();
    let goal2 = registry.add_goal(creator, &course.id, s("sha256_goal2"), 0).unwrap();
    let goal3 = registry.add_goal(creator, &course.id, s("sha256_goal3"), 0).unwrap();

    registry.remove_goal(creator, &course.id, &goal2.goal_id).unwrap();
    registry.remove_goal(creator, &course.id, &goal1.goal_id).unwrap();
    registry.remove_goal(creator, &course.id, &goal3.goal_id).unwrap();
}

#[test]
fn goal_errors_name_their_cause() {
    let mut registry = CourseRegistry::new();
    let creator = Address(1);
    let course = create_test_course(&mut registry, creator);
    let goal = registry.add_goal(creator, &course.id, s("hash_goal_aabbccddeeff11223344"), 0).unwrap();

    let empty = s("");
    let missing_course = s("42");
    let missing_goal = s("99");

    assert_eq!(
        registry.add_goal(creator, &empty, s("h"), 0).unwrap_err(),
        Error::EmptyCourseId
    );
    assert_eq!(
        registry.add_goal(creator, &course.id, s(""), 0).unwrap_err(),
        Error::EmptyGoalContent
    );
    let long_id: String = "9".repeat(101);
    assert_eq!(
        registry.add_goal(creator, &long_id, s("h"), 0).unwrap_err(),
        Error::InvalidCourseId
    );
    assert_eq!(
        registry.add_goal(creator, &missing_course, s("h"), 0).unwrap_err(),
        Error::CourseNotFound
    );
    assert_eq!(
        registry.add_goal(Address(2), &course.id, s("h"), 0).unwrap_err(),
        Error::OnlyCreatorCanAddGoals
    );

    assert_eq!(
        registry.edit_goal(creator, &course.id, &empty, s("h")).unwrap_err(),
        Error::EmptyGoalId
    );
    assert_eq!(
        registry.edit_goal(creator, &course.id, &goal.goal_id, s("")).unwrap_err(),
        Error::EmptyNewGoalContent
    );
    assert_eq!(
        registry.edit_goal(Address(2), &course.id, &goal.goal_id, s("h")).unwrap_err(),
        Error::Unauthorized
    );
    assert_eq!(
        registry.edit_goal(creator, &course.id, &missing_goal, s("h")).unwrap_err(),
        Error::GoalNotFound
    );
    assert_eq!(
        registry.remove_goal(creator, &course.id, &missing_goal).unwrap_err(),
        Error::GoalNotFound
    );
}
