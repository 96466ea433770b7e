//! The course registry: identifier allocation, rate-limited course
//! creation, authorized mutation, and direct lookup.
//!
//! All state lives in the keyed record store; every operation either
//! completes and commits all its writes, or returns an error and leaves the
//! store exactly as it was.

use vstd::prelude::*;

use crate::Address;
use crate::ids::{
    dec_digits, dec_val, is_canon_dec, lemma_canon_dec_digits, lemma_dec_digits_wf,
    module_id_chars, parse_dec_u64, u64_to_dec_string,
};
use crate::schema::{
    Course, CourseV, EditCourseParams, EditCourseParamsV, Error, RateLimitEntry, RATE_LIMIT_MAX_CREATIONS, RATE_LIMIT_WINDOW,
    MAX_CATEGORY_LEN, MAX_DURATION_HOURS, MAX_LANGUAGE_LEN,
};
use crate::store::{KeyStore, Record, RecordV, StoreKey};

verus! {

/// The number a counter record holds, zero when absent.
pub open spec fn spec_counter(m: Map<StoreKey, RecordV>, k: StoreKey) -> u64 {
    if m.contains_key(k) {
        match m[k] {
            RecordV::Counter(n) => n,
            _ => 0,
        }
    } else {
        0
    }
}

/// The highest course identifier allocated so far.
pub open spec fn spec_course_counter(m: Map<StoreKey, RecordV>) -> u64 {
    spec_counter(m, StoreKey::CourseCounter)
}

/// The course stored under numeric identifier `n`, if any.
pub open spec fn course_at(m: Map<StoreKey, RecordV>, n: u64) -> Option<CourseV> {
    if m.contains_key(StoreKey::CourseKey(n)) {
        match m[StoreKey::CourseKey(n)] {
            RecordV::CourseRec(c) => Some(c),
            _ => None,
        }
    } else {
        None
    }
}

/// The numeric value of a course identifier string, if it is canonical.
pub open spec fn course_id_num(id: Seq<char>) -> Option<u64> {
    if is_canon_dec(id) && dec_val(id) <= u64::MAX {
        Some(dec_val(id) as u64)
    } else {
        None
    }
}

/// The course a caller-supplied identifier string denotes, if any.
pub open spec fn lookup_course(m: Map<StoreKey, RecordV>, id: Seq<char>) -> Option<CourseV> {
    match course_id_num(id) {
        Some(n) => course_at(m, n),
        None => None,
    }
}

/// The rate-limit record of one creator, all-zero when absent.
pub open spec fn spec_rate_entry(m: Map<StoreKey, RecordV>, a: Address) -> RateLimitEntry {
    if m.contains_key(StoreKey::RateLimitKey(a)) {
        match m[StoreKey::RateLimitKey(a)] {
            RecordV::RateLimitRec(r) => r,
            _ => (RateLimitEntry { count: 0, window_start: 0 }),
        }
    } else {
        (RateLimitEntry { count: 0, window_start: 0 })
    }
}

/// The creator's counter after accounting for window expiry at time `now`.
pub open spec fn spec_rate_effective(m: Map<StoreKey, RecordV>, a: Address, now: u64) -> RateLimitEntry {
    let r = spec_rate_entry(m, a);
    if now >= r.window_start + RATE_LIMIT_WINDOW || now < r.window_start {
        (RateLimitEntry { count: 0, window_start: now })
    } else {
        r
    }
}

/// Whether one more creation by `a` at time `now` would exceed the ceiling.
pub open spec fn spec_rate_exceeded(m: Map<StoreKey, RecordV>, a: Address, now: u64) -> bool {
    spec_rate_effective(m, a, now).count + 1 > RATE_LIMIT_MAX_CREATIONS
}

/// The error `create_course` reports for these arguments, if any; the order
/// encodes the precedence of the checks (rate limiting runs first, then
/// field validation).
pub open spec fn create_course_error(
    m: Map<StoreKey, RecordV>,
    creator: Address,
    off_chain_ref_id: Seq<char>,
    content_hash: Seq<char>,
    price: u128,
    category: Option<Seq<char>>,
    language: Option<Seq<char>>,
    duration_hours: Option<u32>,
    now: u64,
) -> Option<Error> {
    if spec_rate_exceeded(m, creator, now) {
        Some(Error::RateLimitExceeded)
    } else if off_chain_ref_id.len() == 0 {
        Some(Error::OffChainRefIdRequired)
    } else if content_hash.len() == 0 {
        Some(Error::ContentHashRequired)
    } else if price == 0 {
        Some(Error::InvalidPrice)
    } else if category matches Some(c) && (c.len() == 0 || c.len() > MAX_CATEGORY_LEN) {
        Some(Error::EmptyCategory)
    } else if language matches Some(l) && (l.len() == 0 || l.len() > MAX_LANGUAGE_LEN) {
        Some(Error::InvalidLanguageLength)
    } else if duration_hours matches Some(d) && (d == 0 || d > MAX_DURATION_HOURS) {
        Some(Error::InvalidDurationValue)
    } else {
        None
    }
}

/// Course records are stored under their own identifier, carry the
/// canonical string form of it, and never exceed the allocation counter.
pub open spec fn courses_wf(m: Map<StoreKey, RecordV>) -> bool {
    forall|n: u64|
        #[trigger] m.contains_key(StoreKey::CourseKey(n)) ==> (m[StoreKey::CourseKey(n)] matches
        RecordV::CourseRec(c) && c.id == dec_digits(n as nat) && 1 <= n && n
            <= spec_course_counter(m) && c.price > 0)
}

/// The three allocator records hold counters and rate-limit keys hold
/// rate-limit records.
pub open spec fn counters_wf(m: Map<StoreKey, RecordV>) -> bool {
    &&& m.contains_key(StoreKey::CourseCounter) ==> m[StoreKey::CourseCounter] is Counter
    &&& m.contains_key(StoreKey::GoalCounter) ==> m[StoreKey::GoalCounter] is Counter
    &&& m.contains_key(StoreKey::CategoryCounter) ==> m[StoreKey::CategoryCounter] is Counter
    &&& forall|a: Address|
        #[trigger] m.contains_key(StoreKey::RateLimitKey(a)) ==> m[StoreKey::RateLimitKey(a)]
            is RateLimitRec
}

/// The highest goal identifier allocated so far.
pub open spec fn spec_goal_counter(m: Map<StoreKey, RecordV>) -> u64 {
    spec_counter(m, StoreKey::GoalCounter)
}

/// The highest category identifier allocated so far.
pub open spec fn spec_category_counter(m: Map<StoreKey, RecordV>) -> u64 {
    spec_counter(m, StoreKey::CategoryCounter)
}

/// The category stored under numeric identifier `i`, if any.
pub open spec fn category_at(m: Map<StoreKey, RecordV>, i: u64) -> Option<crate::schema::CourseCategoryV> {
    if m.contains_key(StoreKey::CategoryKey(i)) {
        match m[StoreKey::CategoryKey(i)] {
            RecordV::CategoryRec(c) => Some(c),
            _ => None,
        }
    } else {
        None
    }
}

/// The name of the category stored under `i`, if any.
pub open spec fn category_name(m: Map<StoreKey, RecordV>, i: u64) -> Option<Seq<char>> {
    match category_at(m, i) {
        Some(c) => Some(c.name),
        None => None,
    }
}

/// Module records carry the identifier, course and position they are
/// keyed under, and position markers are bare sentinels.
pub open spec fn modules_wf(m: Map<StoreKey, RecordV>) -> bool {
    &&& forall|c: u64, p: u32, q: u32|
        #[trigger] m.contains_key(StoreKey::ModuleKey(c, p, q)) ==> (m[StoreKey::ModuleKey(c, p, q)]
            matches RecordV::ModuleRec(mv) && mv.course_id == dec_digits(c as nat) && mv.position
            == p && mv.id == module_id_chars(c as nat, p as nat, q as nat))
    &&& forall|c: u64, p: u32|
        #[trigger] m.contains_key(StoreKey::PositionTaken(c, p)) ==> m[StoreKey::PositionTaken(
            c,
            p,
        )] is Marker
}

/// Goal records carry the course and goal numbers they are keyed under,
/// in canonical decimal form, and goal numbers never exceed the counter.
pub open spec fn goals_wf(m: Map<StoreKey, RecordV>) -> bool {
    forall|c: u64, g: u64|
        #[trigger] m.contains_key(StoreKey::GoalKey(c, g)) ==> (m[StoreKey::GoalKey(c, g)] matches
        RecordV::GoalRec(gv) && gv.course_id == dec_digits(c as nat) && gv.goal_id == dec_digits(
            g as nat,
        ) && 1 <= g && g <= spec_goal_counter(m))
}

/// Category records carry their own identifier, never exceed the counter,
/// and no two categories share a name.
pub open spec fn categories_wf(m: Map<StoreKey, RecordV>) -> bool {
    &&& forall|i: u64|
        #[trigger] m.contains_key(StoreKey::CategoryKey(i)) ==> (m[StoreKey::CategoryKey(i)]
            matches RecordV::CategoryRec(cv) && cv.id == i as u128 && 1 <= i && i
            <= spec_category_counter(m))
    &&& forall|i: u64, j: u64|
        #![trigger category_name(m, i), category_name(m, j)]
        (i != j && category_name(m, i) is Some) ==> category_name(m, i) != category_name(m, j)
}

/// The version key holds a version record.
pub open spec fn version_wf(m: Map<StoreKey, RecordV>) -> bool {
    m.contains_key(StoreKey::VersionKey) ==> m[StoreKey::VersionKey] is VersionRec
}

/// Inserting a record outside the category key family preserves category
/// well-formedness.
pub proof fn lemma_categories_wf_insert(m: Map<StoreKey, RecordV>, k: StoreKey, v: RecordV)
    requires
        categories_wf(m),
        !(k is CategoryKey),
        k != StoreKey::CategoryCounter,
    ensures
        categories_wf(m.insert(k, v)),
{
    let m2 = m.insert(k, v);
    assert(spec_category_counter(m2) == spec_category_counter(m));
    assert forall|i: u64, j: u64|
        #![trigger category_name(m2, i), category_name(m2, j)]
        (i != j && category_name(m2, i) is Some) implies category_name(m2, i) != category_name(
        m2,
        j,
    ) by {
        assert(category_name(m2, i) == category_name(m, i));
        assert(category_name(m2, j) == category_name(m, j));
    }
}

/// Inserting a record outside the module, goal, category and version key
/// families preserves their well-formedness.
pub proof fn lemma_aux_wf_insert(m: Map<StoreKey, RecordV>, k: StoreKey, v: RecordV)
    requires
        modules_wf(m),
        goals_wf(m),
        categories_wf(m),
        version_wf(m),
        !(k is ModuleKey),
        !(k is PositionTaken),
        !(k is GoalKey),
        !(k is CategoryKey),
        k != StoreKey::GoalCounter,
        k != StoreKey::CategoryCounter,
        k != StoreKey::VersionKey,
    ensures
        modules_wf(m.insert(k, v)),
        goals_wf(m.insert(k, v)),
        categories_wf(m.insert(k, v)),
        version_wf(m.insert(k, v)),
{
    let m2 = m.insert(k, v);
    assert(spec_goal_counter(m2) == spec_goal_counter(m));
    lemma_categories_wf_insert(m, k, v);
}

/// Removing any record preserves every well-formedness component: all of
/// them only constrain the keys that are present.
pub proof fn lemma_wf_remove(m: Map<StoreKey, RecordV>, k: StoreKey)
    requires
        counters_wf(m),
        courses_wf(m),
        modules_wf(m),
        goals_wf(m),
        categories_wf(m),
        version_wf(m),
        !(k is CourseCounter),
        !(k is GoalCounter),
        !(k is CategoryCounter),
        !(k is CourseKey),
        !(k is CategoryKey),
    ensures
        counters_wf(m.remove(k)),
        courses_wf(m.remove(k)),
        modules_wf(m.remove(k)),
        goals_wf(m.remove(k)),
        categories_wf(m.remove(k)),
        version_wf(m.remove(k)),
{
    let m2 = m.remove(k);
    assert(spec_course_counter(m2) == spec_course_counter(m));
    assert(spec_goal_counter(m2) == spec_goal_counter(m));
    assert(spec_category_counter(m2) == spec_category_counter(m));
    assert forall|i: u64, j: u64|
        #![trigger category_name(m2, i), category_name(m2, j)]
        (i != j && category_name(m2, i) is Some) implies category_name(m2, i) != category_name(
        m2,
        j,
    ) by {
        assert(category_name(m2, i) == category_name(m, i));
        assert(category_name(m2, j) == category_name(m, j));
    }
}

/// The course registry contract state.
pub struct CourseRegistry {
    pub(crate) store: KeyStore,
}

impl View for CourseRegistry {
    type V = Map<StoreKey, RecordV>;

    closed spec fn view(&self) -> Map<StoreKey, RecordV> {
        self.store@
    }
}

impl CourseRegistry {
    /// Internal invariant of the registry state.
    pub open spec fn wf(&self) -> bool {
        &&& self.inner_wf()
        &&& counters_wf(self@)
        &&& courses_wf(self@)
        &&& modules_wf(self@)
        &&& goals_wf(self@)
        &&& categories_wf(self@)
        &&& version_wf(self@)
    }

    /// Well-formedness of the underlying store.
    pub closed spec fn inner_wf(&self) -> bool {
        self.store.wf()
    }

    /// Borrows the underlying store.
    pub(crate) fn store_ref(&self) -> (r: &KeyStore)
        requires
            self.inner_wf(),
        ensures
            r.wf(),
            r@ == self@,
    {
        &self.store
    }

    /// Whether a record is stored under `k`.
    pub(crate) fn store_has(&self, k: StoreKey) -> (r: bool)
        requires
            self.inner_wf(),
        ensures
            r == self@.contains_key(k),
    {
        self.store.has(k)
    }

    /// The record stored under `k`, if any.
    pub(crate) fn store_get(&self, k: StoreKey) -> (r: Option<&Record>)
        requires
            self.inner_wf(),
        ensures
            match r {
                Some(rec) => self@.contains_key(k) && rec@ == self@[k],
                None => !self@.contains_key(k),
            },
    {
        self.store.get(k)
    }

    /// Stores `rec` under `k`, replacing any record already there.
    pub(crate) fn store_set(&mut self, k: StoreKey, rec: Record)
        requires
            old(self).inner_wf(),
        ensures
            final(self).inner_wf(),
            final(self)@ == old(self)@.insert(k, rec@),
    {
        self.store.set(k, rec)
    }

    /// Removes the record under `k`, if any.
    pub(crate) fn store_remove(&mut self, k: StoreKey)
        requires
            old(self).inner_wf(),
        ensures
            final(self).inner_wf(),
            final(self)@ == old(self)@.remove(k),
    {
        self.store.remove(k)
    }

    /// An empty registry.
    pub fn new() -> (r: CourseRegistry)
        ensures
            r.wf(),
            r@ == Map::<StoreKey, RecordV>::empty(),
    {
        CourseRegistry { store: KeyStore::new() }
    }

    /// Reads the course allocation counter (0 when none was stored yet).
    pub fn course_counter(&self) -> (r: u64)
        requires
            self.wf(),
        ensures
            r == spec_course_counter(self@),
    {
        match self.store.get(StoreKey::CourseCounter) {
            Some(Record::Counter(n)) => *n,
            _ => 0,
        }
    }

    /// Reads the goal allocation counter (0 when none was stored yet).
    pub fn goal_counter(&self) -> (r: u64)
        requires
            self.wf(),
        ensures
            r == spec_goal_counter(self@),
    {
        match self.store.get(StoreKey::GoalCounter) {
            Some(Record::Counter(n)) => *n,
            _ => 0,
        }
    }

    /// Reads the category allocation counter (0 when none was stored yet).
    pub fn category_counter(&self) -> (r: u64)
        requires
            self.wf(),
        ensures
            r == spec_category_counter(self@),
    {
        match self.store.get(StoreKey::CategoryCounter) {
            Some(Record::Counter(n)) => *n,
            _ => 0,
        }
    }

    /// Allocates the next course identifier: reads the counter, increments
    /// it, persists the new value and returns it.
    pub fn generate_course_id(&mut self) -> (r: u64)
        requires
            old(self).wf(),
            spec_course_counter(old(self)@) < u64::MAX,
        ensures
            final(self).wf(),
            r == spec_course_counter(old(self)@) + 1,
            final(self)@ == old(self)@.insert(StoreKey::CourseCounter, RecordV::Counter(r)),
            spec_course_counter(final(self)@) == r,
    {
        let cur = self.course_counter();
        let next = cur + 1;
        self.store.set(StoreKey::CourseCounter, Record::Counter(next));
        proof {
            assert(courses_wf(self@)) by {
                assert(forall|n: u64|
                    #[trigger] self@.contains_key(StoreKey::CourseKey(n)) ==> old(
                        self,
                    )@.contains_key(StoreKey::CourseKey(n)));
            }
            lemma_aux_wf_insert(old(self)@, StoreKey::CourseCounter, RecordV::Counter(next));
        }
        next
    }

    /// Whether `user` is the creator of the course `course_id` denotes.
    /// False when the course does not exist.
    pub fn is_course_creator(&self, course_id: &String, user: Address) -> (r: bool)
        requires
            self.wf(),
        ensures
            r == (lookup_course(self@, course_id@) matches Some(c) && c.creator == user),
    {
        match self.lookup(course_id) {
            Some(c) => c.creator.0 == user.0,
            None => false,
        }
    }

    /// Looks a course up by its identifier string, borrowing the record.
    fn lookup(&self, course_id: &String) -> (r: Option<&Course>)
        requires
            self.wf(),
        ensures
            match r {
                Some(c) => lookup_course(self@, course_id@) == Some(c@),
                None => lookup_course(self@, course_id@) is None,
            },
    {
        let n = match parse_dec_u64(course_id.as_str()) {
            Some(n) => n,
            None => {
                proof {
                    lemma_course_id_num_none(course_id@);
                }
                return None;
            },
        };
        proof {
            lemma_dec_digits_wf(n as nat);
            assert(course_id_num(course_id@) == Some(n));
        }
        match self.store.get(StoreKey::CourseKey(n)) {
            Some(Record::CourseRec(c)) => Some(c),
            _ => None,
        }
    }

    /// Retrieves a course by its identifier string.
    pub fn get_course(&self, course_id: &String) -> (r: Result<Course, Error>)
        requires
            self.wf(),
        ensures
            match r {
                Ok(c) => lookup_course(self@, course_id@) == Some(c@),
                Err(e) => e == Error::CourseNotFound && lookup_course(self@, course_id@) is None,
            },
    {
        match self.lookup(course_id) {
            Some(c) => Ok(c.duplicate()),
            None => Err(Error::CourseNotFound),
        }
    }

    /// Creates a new course: checks the creator's rate limit, validates
    /// every field, allocates the next identifier and persists the record.
    /// A failed call leaves the registry unchanged.
    pub fn create_course(
        &mut self,
        creator: Address,
        off_chain_ref_id: String,
        content_hash: String,
        price: u128,
        category: Option<String>,
        language: Option<String>,
        level: Option<String>,
        duration_hours: Option<u32>,
        now: u64,
    ) -> (r: Result<Course, Error>)
        requires
            old(self).wf(),
            spec_course_counter(old(self)@) < u64::MAX,
        ensures
            final(self).wf(),
            match r {
                Err(e) => {
                    &&& Some(e) == create_course_error(
                        old(self)@,
                        creator,
                        off_chain_ref_id@,
                        content_hash@,
                        price,
                        category.deep_view(),
                        language.deep_view(),
                        duration_hours,
                        now,
                    )
                    &&& *final(self) == *old(self)
                },
                Ok(c) => {
                    &&& create_course_error(
                        old(self)@,
                        creator,
                        off_chain_ref_id@,
                        content_hash@,
                        price,
                        category.deep_view(),
                        language.deep_view(),
                        duration_hours,
                        now,
                    ) is None
                    &&& c@.id == dec_digits((spec_course_counter(old(self)@) + 1) as nat)
                    &&& c@.off_chain_ref_id == off_chain_ref_id@
                    &&& c@.content_hash == content_hash@
                    &&& c@.creator == creator
                    &&& c@.price == price
                    &&& c@.category == category.deep_view()
                    &&& c@.language == language.deep_view()
                    &&& c@.level == level.deep_view()
                    &&& c@.duration_hours == duration_hours
                    &&& c@.published == false
                    &&& c@.is_archived == false
                    &&& c@.prerequisites == Seq::<Seq<char>>::empty()
                    &&& final(self)@ == old(self)@.insert(
                        StoreKey::CourseCounter,
                        RecordV::Counter((spec_course_counter(old(self)@) + 1) as u64),
                    ).insert(
                        StoreKey::RateLimitKey(creator),
                        RecordV::RateLimitRec(
                            (RateLimitEntry {
                                count: (spec_rate_effective(old(self)@, creator, now).count
                                    + 1) as u32,
                                window_start: spec_rate_effective(
                                    old(self)@,
                                    creator,
                                    now,
                                ).window_start,
                            }),
                        ),
                    ).insert(
                        StoreKey::CourseKey((spec_course_counter(old(self)@) + 1) as u64),
                        RecordV::CourseRec(c@),
                    )
                    &&& spec_course_counter(final(self)@) == spec_course_counter(old(self)@) + 1
                },
            },
    {
        // Rate limiting runs before any validation or side effect.
        let entry = match self.store.get(StoreKey::RateLimitKey(creator)) {
            Some(Record::RateLimitRec(r)) => *r,
            _ => RateLimitEntry { count: 0, window_start: 0 },
        };
        let effective: RateLimitEntry =
            if now >= entry.window_start && now - entry.window_start >= RATE_LIMIT_WINDOW {
                RateLimitEntry { count: 0, window_start: now }
            } else if now < entry.window_start {
                RateLimitEntry { count: 0, window_start: now }
            } else {
                entry
            };
        proof {
            assert(effective == spec_rate_effective(self@, creator, now));
        }
        if effective.count >= RATE_LIMIT_MAX_CREATIONS {
            return Err(Error::RateLimitExceeded);
        }

        // Field validation, in the order the errors are defined.
        if off_chain_ref_id.as_str().unicode_len() == 0 {
            return Err(Error::OffChainRefIdRequired);
        }
        if content_hash.as_str().unicode_len() == 0 {
            return Err(Error::ContentHashRequired);
        }
        if price == 0 {
            return Err(Error::InvalidPrice);
        }
        match &category {
            Some(cat) => {
                let l = cat.as_str().unicode_len();
                if l == 0 || l > MAX_CATEGORY_LEN {
                    return Err(Error::EmptyCategory);
                }
            },
            None => {},
        }
        match &language {
            Some(lang) => {
                let l = lang.as_str().unicode_len();
                if l == 0 || l > MAX_LANGUAGE_LEN {
                    return Err(Error::InvalidLanguageLength);
                }
            },
            None => {},
        }
        match duration_hours {
            Some(d) => {
                if d == 0 || d > MAX_DURATION_HOURS {
                    return Err(Error::InvalidDurationValue);
                }
            },
            None => {},
        }

        // All checks passed: allocate the identifier and commit.
        let id = self.generate_course_id();
        let id_string = u64_to_dec_string(id);
        let course = Course {
            id: id_string,
            off_chain_ref_id,
            content_hash,
            creator,
            price,
            category,
            language,
            published: false,
            prerequisites: Vec::new(),
            is_archived: false,
            level,
            duration_hours,
        };
        self.store.set(
            StoreKey::RateLimitKey(creator),
            Record::RateLimitRec(
                RateLimitEntry { count: effective.count + 1, window_start: effective.window_start },
            ),
        );
        self.store.set(StoreKey::CourseKey(id), Record::CourseRec(course.duplicate()));
        proof {
            assert(counters_wf(self@));
            assert(courses_wf(self@));
            let m0 = old(self)@;
            let m1 = m0.insert(StoreKey::CourseCounter, RecordV::Counter(id));
            let m2 = m1.insert(
                StoreKey::RateLimitKey(creator),
                RecordV::RateLimitRec(
                    (RateLimitEntry {
                        count: (effective.count + 1) as u32,
                        window_start: effective.window_start,
                    }),
                ),
            );
            lemma_aux_wf_insert(m0, StoreKey::CourseCounter, RecordV::Counter(id));
            lemma_aux_wf_insert(
                m1,
                StoreKey::RateLimitKey(creator),
                RecordV::RateLimitRec(
                    (RateLimitEntry {
                        count: (effective.count + 1) as u32,
                        window_start: effective.window_start,
                    }),
                ),
            );
            lemma_aux_wf_insert(m2, StoreKey::CourseKey(id), RecordV::CourseRec(course@));
            assert(self@ == m2.insert(StoreKey::CourseKey(id), RecordV::CourseRec(course@)));
        }
        Ok(course)
    }

    /// Edits an existing course.  Only the creator may edit; supplied
    /// fields are validated, then applied in place.
    pub fn edit_course(
        &mut self,
        creator: Address,
        course_id: &String,
        params: EditCourseParams,
    ) -> (r: Result<Course, Error>)
        requires
            old(self).wf(),
        ensures
            final(self).wf(),
            match r {
                Err(e) => {
                    &&& Some(e) == edit_course_error(old(self)@, creator, course_id@, params@)
                    &&& *final(self) == *old(self)
                },
                Ok(c) => {
                    &&& edit_course_error(old(self)@, creator, course_id@, params@) is None
                    &&& lookup_course(old(self)@, course_id@) matches Some(stored)
                        && c@ == edited_course(stored, params@)
                    &&& course_id_num(course_id@) matches Some(n) && final(self)@ == old(
                        self,
                    )@.insert(StoreKey::CourseKey(n), RecordV::CourseRec(c@))
                },
            },
    {
        let n = match parse_dec_u64(course_id.as_str()) {
            Some(n) => n,
            None => {
                proof {
                    lemma_course_id_num_none(course_id@);
                }
                return Err(Error::CourseNotFound);
            },
        };
        proof {
            lemma_dec_digits_wf(n as nat);
            assert(course_id_num(course_id@) == Some(n));
        }
        let stored = match self.store.get(StoreKey::CourseKey(n)) {
            Some(Record::CourseRec(c)) => c,
            _ => {
                return Err(Error::CourseNotFound);
            },
        };
        if stored.creator.0 != creator.0 {
            return Err(Error::Unauthorized);
        }
        let mut course = stored.duplicate();
        let EditCourseParams {
            new_content_hash,
            new_off_chain_ref_id,
            new_price,
            new_category,
            new_language,
            new_published,
            new_level,
            new_duration_hours,
        } = params;
        match new_content_hash {
            Some(h) => {
                if h.as_str().unicode_len() == 0 {
                    return Err(Error::ContentHashRequired);
                }
                course.content_hash = h;
            },
            None => {},
        }
        match new_off_chain_ref_id {
            Some(rid) => {
                if rid.as_str().unicode_len() == 0 {
                    return Err(Error::OffChainRefIdRequired);
                }
                course.off_chain_ref_id = rid;
            },
            None => {},
        }
        match new_price {
            Some(p) => {
                if p == 0 {
                    return Err(Error::InvalidPrice);
                }
                course.price = p;
            },
            None => {},
        }
        match new_category {
            Some(cat) => {
                course.category = cat;
            },
            None => {},
        }
        match new_language {
            Some(lang) => {
                course.language = lang;
            },
            None => {},
        }
        match new_published {
            Some(p) => {
                course.published = p;
            },
            None => {},
        }
        match new_level {
            Some(lvl) => {
                course.level = lvl;
            },
            None => {},
        }
        match new_duration_hours {
            Some(d) => {
                course.duration_hours = d;
            },
            None => {},
        }
        self.store.set(StoreKey::CourseKey(n), Record::CourseRec(course.duplicate()));
        proof {
            assert(counters_wf(self@));
            assert(courses_wf(self@));
            lemma_aux_wf_insert(old(self)@, StoreKey::CourseKey(n), RecordV::CourseRec(course@));
        }
        Ok(course)
    }

    /// Archives a course; it stays retrievable by identifier but never
    /// appears in filtered listings again.  Only the creator may archive.
    pub fn archive_course(&mut self, creator: Address, course_id: &String) -> (r: Result<
        Course,
        Error,
    >)
        requires
            old(self).wf(),
        ensures
            final(self).wf(),
            match r {
                Err(e) => {
                    &&& Some(e) == archive_course_error(old(self)@, creator, course_id@)
                    &&& *final(self) == *old(self)
                },
                Ok(c) => {
                    &&& archive_course_error(old(self)@, creator, course_id@) is None
                    &&& lookup_course(old(self)@, course_id@) matches Some(stored)
                        && c@ == (CourseV { is_archived: true, ..stored })
                    &&& course_id_num(course_id@) matches Some(n) && final(self)@ == old(
                        self,
                    )@.insert(StoreKey::CourseKey(n), RecordV::CourseRec(c@))
                },
            },
    {
        let n = match parse_dec_u64(course_id.as_str()) {
            Some(n) => n,
            None => {
                proof {
                    lemma_course_id_num_none(course_id@);
                }
                return Err(Error::CourseNotFound);
            },
        };
        proof {
            lemma_dec_digits_wf(n as nat);
            assert(course_id_num(course_id@) == Some(n));
        }
        let stored = match self.store.get(StoreKey::CourseKey(n)) {
            Some(Record::CourseRec(c)) => c,
            _ => {
                return Err(Error::CourseNotFound);
            },
        };
        if stored.creator.0 != creator.0 {
            return Err(Error::Unauthorized);
        }
        let mut course = stored.duplicate();
        course.is_archived = true;
        self.store.set(StoreKey::CourseKey(n), Record::CourseRec(course.duplicate()));
        proof {
            assert(counters_wf(self@));
            assert(courses_wf(self@));
            lemma_aux_wf_insert(old(self)@, StoreKey::CourseKey(n), RecordV::CourseRec(course@));
        }
        Ok(course)
    }
}

/// When a string is the canonical decimal form of no `u64`, it denotes no
/// course identifier.
pub proof fn lemma_course_id_num_none(id: Seq<char>)
    requires
        forall|n: u64| id != #[trigger] dec_digits(n as nat),
    ensures
        course_id_num(id) is None,
{
    if course_id_num(id) is Some {
        let v = dec_val(id);
        lemma_canon_dec_digits(id);
        assert(id == dec_digits(v as nat));
    }
}

/// The course record after applying an edit.
pub open spec fn edited_course(c: CourseV, p: EditCourseParamsV) -> CourseV {
    (CourseV {
        id: c.id,
        creator: c.creator,
        prerequisites: c.prerequisites,
        is_archived: c.is_archived,
        content_hash: match p.new_content_hash {
            Some(h) => h,
            None => c.content_hash,
        },
        off_chain_ref_id: match p.new_off_chain_ref_id {
            Some(rid) => rid,
            None => c.off_chain_ref_id,
        },
        price: match p.new_price {
            Some(v) => v,
            None => c.price,
        },
        category: match p.new_category {
            Some(cat) => cat,
            None => c.category,
        },
        language: match p.new_language {
            Some(lg) => lg,
            None => c.language,
        },
        published: match p.new_published {
            Some(v) => v,
            None => c.published,
        },
        level: match p.new_level {
            Some(lvl) => lvl,
            None => c.level,
        },
        duration_hours: match p.new_duration_hours {
            Some(d) => d,
            None => c.duration_hours,
        },
    })
}

/// The error `edit_course` reports, if any: the course must exist, the
/// caller must be its creator, and supplied fields must be valid.
pub open spec fn edit_course_error(
    m: Map<StoreKey, RecordV>,
    creator: Address,
    id: Seq<char>,
    p: EditCourseParamsV,
) -> Option<Error> {
    match lookup_course(m, id) {
        None => Some(Error::CourseNotFound),
        Some(c) => if c.creator != creator {
            Some(Error::Unauthorized)
        } else if p.new_content_hash matches Some(h) && h.len() == 0 {
            Some(Error::ContentHashRequired)
        } else if p.new_off_chain_ref_id matches Some(rid) && rid.len() == 0 {
            Some(Error::OffChainRefIdRequired)
        } else if p.new_price matches Some(v) && v == 0 {
            Some(Error::InvalidPrice)
        } else {
            None
        },
    }
}

/// The error `archive_course` reports, if any.
pub open spec fn archive_course_error(
    m: Map<StoreKey, RecordV>,
    creator: Address,
    id: Seq<char>,
) -> Option<Error> {
    match lookup_course(m, id) {
        None => Some(Error::CourseNotFound),
        Some(c) => if c.creator != creator {
            Some(Error::Unauthorized)
        } else {
            None
        },
    }
}

} // verus!
