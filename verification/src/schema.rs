//! Data model of the registry: records kept in the keyed store, the filter
//! and edit parameter bundles, the error taxonomy, and the work bounds of
//! every scan-based operation.
//!
//! Each record type has a mathematical view (`Seq<char>` for strings) that
//! the contracts speak of, and a verified `duplicate` method that produces a
//! record with the same view.

use vstd::prelude::*;

use crate::Address;

verus! {

/// Semantic version of the current deployment.
pub const VERSION: &'static str = "1.0.0";

/// Highest course identifier the filtered scanner will visit.
pub const MAX_SCAN_ID: u64 = 10_000;

/// Consecutive absent-key probes after which a scan is abandoned.
pub const MAX_EMPTY_CHECKS: u32 = 100;

/// Ceiling on iterations of the instructor scan and of the module
/// position scan.
pub const MAX_LOOP_GUARD: u32 = 10_000;

/// Highest position a module may occupy within a course.
pub const MAX_MODULE_POSITION: u32 = 10_000;

/// How many candidate ledger sequence numbers the module listing probes
/// for each occupied position.
pub const MODULE_SEQ_PROBE_LIMIT: u32 = 1_000;

/// Largest page size a caller may request.
pub const MAX_PAGE_LIMIT: u32 = 100;

/// Largest pagination offset a caller may request.
pub const MAX_PAGE_OFFSET: u32 = 10_000;

/// Hard cap on the number of courses one page actually returns.
pub const EFFECTIVE_PAGE_CAP: u32 = 20;

/// Page size used when the caller requests none.
pub const DEFAULT_PAGE_LIMIT: u32 = 10;

/// Length of the rate-limit window for course creation, in ledger seconds.
pub const RATE_LIMIT_WINDOW: u64 = 3_600;

/// Most course creations one identity may perform within one window.
pub const RATE_LIMIT_MAX_CREATIONS: u32 = 5;

/// Price used by tests and examples when any positive price will do.
pub const DEFAULT_COURSE_PRICE: u128 = 1_000;

/// A minimum-price filter value that lies above `DEFAULT_COURSE_PRICE / 2`.
pub const FILTER_MIN_PRICE: u128 = 500;

/// Longest accepted course identifier string.
pub const MAX_COURSE_ID_LEN: usize = 100;

/// Longest accepted category label.
pub const MAX_CATEGORY_LEN: usize = 100;

/// Longest accepted language label.
pub const MAX_LANGUAGE_LEN: usize = 50;

/// Largest accepted course duration, in hours (one year).
pub const MAX_DURATION_HOURS: u32 = 8_760;

/// Difficulty label of a course; free-form, compared verbatim.
pub type CourseLevel = String;

/// A course identifier in its external decimal-string form.
pub type CourseId = String;

/// Everything that can go wrong in a registry call.  A failed call returns
/// one of these and leaves the state exactly as it was.
#[derive(Clone, Copy, Debug, PartialEq, Eq, Structural)]
pub enum Error {
    EmptyCourseId,
    InvalidCourseId,
    CourseIdNotExist,
    CourseNotFound,
    DuplicateCourseId,
    OffChainRefIdRequired,
    ContentHashRequired,
    InvalidPrice,
    EmptyCategory,
    InvalidLanguageLength,
    InvalidDurationValue,
    RateLimitExceeded,
    Unauthorized,
    InvalidModulePosition,
    DuplicateModulePosition,
    ModuleNotFound,
    EmptyGoalContent,
    EmptyNewGoalContent,
    EmptyGoalId,
    OnlyCreatorCanAddGoals,
    GoalNotFound,
    GoalCourseMismatch,
    InvalidLimitValue,
    InvalidOffsetValue,
    EmptyCategoryName,
    DuplicateCategoryName,
    EmptyPrerequisiteList,
    PrerequisiteCourseNotFound,
    SelfPrerequisite,
    PrerequisiteNotFound,
    UserProfileNotFound,
    AlreadyInitialized,
    NotInitialized,
}

/// Lean on-chain course record; all descriptive content lives off-chain
/// behind `off_chain_ref_id` and is anchored by `content_hash`.
#[derive(Clone, Debug, PartialEq, Eq)]
pub struct Course {
    /// Unique identifier, the canonical decimal form of a number >= 1.
    pub id: String,
    /// Opaque reference to the full record in the off-chain database.
    pub off_chain_ref_id: String,
    /// Cryptographic digest of the off-chain content.
    pub content_hash: String,
    /// Identity that created the course and may mutate it.
    pub creator: Address,
    /// Price; always greater than zero.
    pub price: u128,
    /// Optional category label.
    pub category: Option<String>,
    /// Optional language label.
    pub language: Option<String>,
    /// Whether the course is visible to the filtered listing.
    pub published: bool,
    /// Ordered list of prerequisite course identifiers.
    pub prerequisites: Vec<String>,
    /// Archived courses stay retrievable by id but never appear in
    /// filtered listings.
    pub is_archived: bool,
    /// Optional difficulty label.
    pub level: Option<CourseLevel>,
    /// Optional duration in hours.
    pub duration_hours: Option<u32>,
}

/// Mathematical image of a `Course`.
pub struct CourseV {
    pub id: Seq<char>,
    pub off_chain_ref_id: Seq<char>,
    pub content_hash: Seq<char>,
    pub creator: Address,
    pub price: u128,
    pub category: Option<Seq<char>>,
    pub language: Option<Seq<char>>,
    pub published: bool,
    pub prerequisites: Seq<Seq<char>>,
    pub is_archived: bool,
    pub level: Option<Seq<char>>,
    pub duration_hours: Option<u32>,
}

impl View for Course {
    type V = CourseV;

    open spec fn view(&self) -> CourseV {
        (CourseV {
            id: self.id@,
            off_chain_ref_id: self.off_chain_ref_id@,
            content_hash: self.content_hash@,
            creator: self.creator,
            price: self.price,
            category: self.category.deep_view(),
            language: self.language.deep_view(),
            published: self.published,
            prerequisites: self.prerequisites.deep_view(),
            is_archived: self.is_archived,
            level: self.level.deep_view(),
            duration_hours: self.duration_hours,
        })
    }
}

impl DeepView for Course {
    type V = CourseV;

    open spec fn deep_view(&self) -> CourseV {
        self.view()
    }
}

/// One module of a course, keyed by course, position and the ledger
/// sequence number current at insertion.
#[derive(Clone, Debug, PartialEq, Eq)]
pub struct CourseModule {
    /// Composite identifier `module_<course>_<position>_<sequence>`.
    pub id: String,
    /// Identifier of the owning course.
    pub course_id: String,
    /// Position within the course; unique per course.
    pub position: u32,
    /// Cryptographic digest of the off-chain module content.
    pub content_hash: String,
    /// Ledger timestamp at creation.
    pub created_at: u64,
}

/// Mathematical image of a `CourseModule`.
pub struct CourseModuleV {
    pub id: Seq<char>,
    pub course_id: Seq<char>,
    pub position: u32,
    pub content_hash: Seq<char>,
    pub created_at: u64,
}

impl View for CourseModule {
    type V = CourseModuleV;

    open spec fn view(&self) -> CourseModuleV {
        (CourseModuleV {
            id: self.id@,
            course_id: self.course_id@,
            position: self.position,
            content_hash: self.content_hash@,
            created_at: self.created_at,
        })
    }
}

impl DeepView for CourseModule {
    type V = CourseModuleV;

    open spec fn deep_view(&self) -> CourseModuleV {
        self.view()
    }
}

/// One learning goal of a course.
#[derive(Clone, Debug, PartialEq, Eq)]
pub struct CourseGoal {
    /// Identifier of the owning course.
    pub course_id: String,
    /// Goal identifier, unique within the registry.
    pub goal_id: String,
    /// Cryptographic digest of the off-chain goal content.
    pub content_hash: String,
    /// Identity that created the goal.
    pub created_by: Address,
    /// Ledger timestamp at creation.
    pub created_at: u64,
}

/// Mathematical image of a `CourseGoal`.
pub struct CourseGoalV {
    pub course_id: Seq<char>,
    pub goal_id: Seq<char>,
    pub content_hash: Seq<char>,
    pub created_by: Address,
    pub created_at: u64,
}

impl View for CourseGoal {
    type V = CourseGoalV;

    open spec fn view(&self) -> CourseGoalV {
        (CourseGoalV {
            course_id: self.course_id@,
            goal_id: self.goal_id@,
            content_hash: self.content_hash@,
            created_by: self.created_by,
            created_at: self.created_at,
        })
    }
}

impl DeepView for CourseGoal {
    type V = CourseGoalV;

    open spec fn deep_view(&self) -> CourseGoalV {
        self.view()
    }
}

/// A course category; names are unique across the registry.
#[derive(Clone, Debug, PartialEq, Eq)]
pub struct CourseCategory {
    /// Numeric identifier, allocated sequentially from 1.
    pub id: u128,
    /// Unique name.
    pub name: String,
    /// Optional description.
    pub description: Option<String>,
}

/// Mathematical image of a `CourseCategory`.
pub struct CourseCategoryV {
    pub id: u128,
    pub name: Seq<char>,
    pub description: Option<Seq<char>>,
}

impl View for CourseCategory {
    type V = CourseCategoryV;

    open spec fn view(&self) -> CourseCategoryV {
        (CourseCategoryV { id: self.id, name: self.name@, description: self.description.deep_view() })
    }
}

impl DeepView for CourseCategory {
    type V = CourseCategoryV;

    open spec fn deep_view(&self) -> CourseCategoryV {
        self.view()
    }
}

/// `CourseCategory` under the name used by the category listing.
pub type Category = CourseCategory;

/// Predicate bundle for the filtered course listing.  A course passes only
/// if every supplied predicate holds.
#[derive(Clone, Debug, PartialEq, Eq)]
pub struct CourseFilters {
    pub min_price: Option<u128>,
    pub max_price: Option<u128>,
    pub category: Option<String>,
    pub level: Option<CourseLevel>,
    pub min_duration: Option<u32>,
    pub max_duration: Option<u32>,
}

/// Mathematical image of `CourseFilters`.
pub struct CourseFiltersV {
    pub min_price: Option<u128>,
    pub max_price: Option<u128>,
    pub category: Option<Seq<char>>,
    pub level: Option<Seq<char>>,
    pub min_duration: Option<u32>,
    pub max_duration: Option<u32>,
}

impl View for CourseFilters {
    type V = CourseFiltersV;

    open spec fn view(&self) -> CourseFiltersV {
        (CourseFiltersV {
            min_price: self.min_price,
            max_price: self.max_price,
            category: self.category.deep_view(),
            level: self.level.deep_view(),
            min_duration: self.min_duration,
            max_duration: self.max_duration,
        })
    }
}

impl DeepView for CourseFilters {
    type V = CourseFiltersV;

    open spec fn deep_view(&self) -> CourseFiltersV {
        self.view()
    }
}

/// Field updates for `edit_course`; an outer `None` leaves the field as it
/// is, an outer `Some` sets it (for optional fields, `Some(None)` clears).
#[derive(Clone, Debug, PartialEq, Eq)]
pub struct EditCourseParams {
    pub new_content_hash: Option<String>,
    pub new_off_chain_ref_id: Option<String>,
    pub new_price: Option<u128>,
    pub new_category: Option<Option<String>>,
    pub new_language: Option<Option<String>>,
    pub new_published: Option<bool>,
    pub new_level: Option<Option<CourseLevel>>,
    pub new_duration_hours: Option<Option<u32>>,
}

/// Mathematical image of `EditCourseParams`.
pub struct EditCourseParamsV {
    pub new_content_hash: Option<Seq<char>>,
    pub new_off_chain_ref_id: Option<Seq<char>>,
    pub new_price: Option<u128>,
    pub new_category: Option<Option<Seq<char>>>,
    pub new_language: Option<Option<Seq<char>>>,
    pub new_published: Option<bool>,
    pub new_level: Option<Option<Seq<char>>>,
    pub new_duration_hours: Option<Option<u32>>,
}

impl View for EditCourseParams {
    type V = EditCourseParamsV;

    open spec fn view(&self) -> EditCourseParamsV {
        (EditCourseParamsV {
            new_content_hash: self.new_content_hash.deep_view(),
            new_off_chain_ref_id: self.new_off_chain_ref_id.deep_view(),
            new_price: self.new_price,
            new_category: self.new_category.deep_view(),
            new_language: self.new_language.deep_view(),
            new_published: self.new_published,
            new_level: self.new_level.deep_view(),
            new_duration_hours: self.new_duration_hours.deep_view(),
        })
    }
}

impl DeepView for EditCourseParams {
    type V = EditCourseParamsV;

    open spec fn deep_view(&self) -> EditCourseParamsV {
        self.view()
    }
}

/// Per-creator counter of course creations within the current window.
#[derive(Clone, Copy, Debug, PartialEq, Eq, Structural)]
pub struct RateLimitEntry {
    /// Creations recorded since `window_start`.
    pub count: u32,
    /// Ledger time at which the current window opened.
    pub window_start: u64,
}

/// Progress of the one-shot version migration.
#[derive(Clone, Copy, Debug, PartialEq, Eq, Structural)]
pub enum MigrationStatus {
    /// No migration was ever attempted.
    Idle,
    /// The last attempted migration completed.
    Completed,
    /// The last attempted migration was rejected as incompatible.
    Failed,
}

/// Version bookkeeping: every deployed version in order, and the outcome of
/// the last migration.
#[derive(Clone, Debug, PartialEq, Eq)]
pub struct VersionRecord {
    /// Deployed versions, oldest first; never rewritten, only appended to.
    pub history: Vec<String>,
    /// Outcome of the last migration attempt.
    pub status: MigrationStatus,
}

/// Mathematical image of a `VersionRecord`.
pub struct VersionRecordV {
    pub history: Seq<Seq<char>>,
    pub status: MigrationStatus,
}

impl View for VersionRecord {
    type V = VersionRecordV;

    open spec fn view(&self) -> VersionRecordV {
        (VersionRecordV { history: self.history.deep_view(), status: self.status })
    }
}

impl DeepView for VersionRecord {
    type V = VersionRecordV;

    open spec fn deep_view(&self) -> VersionRecordV {
        self.view()
    }
}

/// Duplicates an optional string; the copy has the same view.
pub fn clone_opt_string(o: &Option<String>) -> (r: Option<String>)
    ensures
        r.deep_view() == o.deep_view(),
{
    match o {
        Some(s) => Some(s.clone()),
        None => None,
    }
}

/// Duplicates a vector of strings; the copy has the same view.
pub fn clone_string_vec(v: &Vec<String>) -> (r: Vec<String>)
    ensures
        r.deep_view() == v.deep_view(),
{
    let mut r: Vec<String> = Vec::new();
    let mut i: usize = 0;
    while i < v.len()
        invariant
            0 <= i <= v.len(),
            r.len() == i,
            forall|j: int| 0 <= j < i ==> r@[j]@ == v@[j]@,
        decreases v.len() - i,
    {
        r.push(v[i].clone());
        i = i + 1;
    }
    assert(r.deep_view() =~= v.deep_view());
    r
}

impl Course {
    /// Produces a course with the same view.
    pub fn duplicate(&self) -> (r: Course)
        ensures
            r@ == self@,
    {
        let r = Course {
            id: self.id.clone(),
            off_chain_ref_id: self.off_chain_ref_id.clone(),
            content_hash: self.content_hash.clone(),
            creator: self.creator,
            price: self.price,
            category: clone_opt_string(&self.category),
            language: clone_opt_string(&self.language),
            published: self.published,
            prerequisites: clone_string_vec(&self.prerequisites),
            is_archived: self.is_archived,
            level: clone_opt_string(&self.level),
            duration_hours: self.duration_hours,
        };
        r
    }
}

impl CourseModule {
    /// Produces a module record with the same view.
    pub fn duplicate(&self) -> (r: CourseModule)
        ensures
            r@ == self@,
    {
        CourseModule {
            id: self.id.clone(),
            course_id: self.course_id.clone(),
            position: self.position,
            content_hash: self.content_hash.clone(),
            created_at: self.created_at,
        }
    }
}

impl CourseGoal {
    /// Produces a goal record with the same view.
    pub fn duplicate(&self) -> (r: CourseGoal)
        ensures
            r@ == self@,
    {
        CourseGoal {
            course_id: self.course_id.clone(),
            goal_id: self.goal_id.clone(),
            content_hash: self.content_hash.clone(),
            created_by: self.created_by,
            created_at: self.created_at,
        }
    }
}

impl CourseCategory {
    /// Produces a category record with the same view.
    pub fn duplicate(&self) -> (r: CourseCategory)
        ensures
            r@ == self@,
    {
        CourseCategory {
            id: self.id,
            name: self.name.clone(),
            description: clone_opt_string(&self.description),
        }
    }
}

impl VersionRecord {
    /// Produces a version record with the same view.
    pub fn duplicate(&self) -> (r: VersionRecord)
        ensures
            r@ == self@,
    {
        VersionRecord { history: clone_string_vec(&self.history), status: self.status }
    }
}

} // verus!
