//! Laws of the registry, stated and proved over the same spec functions
//! its contracts use.

use vstd::prelude::*;

use crate::Address;
use crate::modules::{add_module_error, position_taken};
use crate::registry::{course_id_num, lookup_course, spec_course_counter};
use crate::scan::{
    course_of, listed_courses, matched_ids, scan_ids, spec_effective_limit, spec_offset,
    visible_match, passes_filters,
};
use crate::schema::{
    CourseFiltersV, CourseModuleV, CourseV, Error, MAX_COURSE_ID_LEN, MAX_EMPTY_CHECKS,
    MAX_MODULE_POSITION, MAX_SCAN_ID,
};
use crate::store::{RecordV, StoreKey};

verus! {

broadcast use vstd::seq_lib::group_filter_ensures;

/// A successful course creation advances the allocation counter by exactly
/// one, so identifiers are assigned sequentially, starting at 1 on a fresh
/// registry (where the counter reads 0).
pub proof fn lemma_course_ids_sequential(m0: Map<StoreKey, RecordV>, m1: Map<StoreKey, RecordV>, id: u64)
    requires
        spec_course_counter(m0) < u64::MAX,
        id == spec_course_counter(m0) + 1,
        m1 == m0.insert(StoreKey::CourseCounter, RecordV::Counter(id)),
    ensures
        spec_course_counter(m1) == spec_course_counter(m0) + 1,
        m0 == Map::<StoreKey, RecordV>::empty() ==> id == 1,
{
}

/// At most one module is ever inserted at a given (course, position): once
/// an insertion succeeded, any later insertion at the same pair fails with
/// the duplicate-position error, whatever its content hash, as long as the
/// later call's own arguments pass validation and authorization.
pub proof fn lemma_module_position_unique(
    m1: Map<StoreKey, RecordV>,
    m2: Map<StoreKey, RecordV>,
    n: u64,
    position: u32,
    ledger_seq: u32,
    md: CourseModuleV,
    caller: Address,
    id: Seq<char>,
    content_hash: Seq<char>,
    caller_is_admin: bool,
)
    requires
        // `m2` is the state right after a module was inserted at
        // (course `n`, `position`) into `m1`.
        course_id_num(id) == Some(n),
        m2 == m1.insert(StoreKey::ModuleKey(n, position, ledger_seq), RecordV::ModuleRec(md))
            .insert(StoreKey::PositionTaken(n, position), RecordV::Marker),
        // The later call's own checks pass: valid arguments, an existing
        // course, an authorized caller.
        0 < id.len() <= MAX_COURSE_ID_LEN,
        content_hash.len() > 0,
        position <= MAX_MODULE_POSITION,
        lookup_course(m2, id) matches Some(c) && (c.creator == caller || caller_is_admin),
    ensures
        add_module_error(m2, caller, id, position, content_hash, caller_is_admin) == Some(
            Error::DuplicateModulePosition,
        ),
{
    assert(m2.contains_key(StoreKey::PositionTaken(n, position)));
    assert(position_taken(m2, id, position));
}

/// A course identifier is matched by the filtered listing exactly when the
/// bounded scan visits it and the stored course is published, not archived
/// and passes every supplied filter.  Archived or unpublished courses are
/// never matched, whatever the filters.
pub proof fn lemma_matched_ids_iff(m: Map<StoreKey, RecordV>, f: CourseFiltersV, n: u64)
    ensures
        matched_ids(m, f).contains(n) <==> (scan_ids(m, 1, 0).contains(n) && visible_match(
            m,
            f,
            n,
        )),
{
    let pred = |n2: u64| visible_match(m, f, n2);
    if matched_ids(m, f).contains(n) {
        let j = choose|j: int| 0 <= j < matched_ids(m, f).len() && matched_ids(m, f)[j] == n;
        scan_ids(m, 1, 0).lemma_filter_pred(pred, j);
        scan_ids(m, 1, 0).lemma_filter_contains_rev(pred, n);
    }
    if scan_ids(m, 1, 0).contains(n) && visible_match(m, f, n) {
        let i = choose|i: int| 0 <= i < scan_ids(m, 1, 0).len() && scan_ids(m, 1, 0)[i] == n;
        scan_ids(m, 1, 0).lemma_filter_contains(pred, i);
    }
}

/// Every course the filtered listing returns is published, not archived,
/// and passes every supplied filter.
pub proof fn lemma_listed_courses_visible(
    m: Map<StoreKey, RecordV>,
    f: CourseFiltersV,
    limit: Option<u32>,
    offset: Option<u32>,
)
    ensures
        forall|j: int|
            0 <= j < listed_courses(m, f, limit, offset).len() ==> {
                let c = #[trigger] listed_courses(m, f, limit, offset)[j];
                c.published && !c.is_archived && passes_filters(c, f)
            },
{
    let matched = matched_ids(m, f);
    let pred = |n2: u64| visible_match(m, f, n2);
    assert forall|j: int| 0 <= j < listed_courses(m, f, limit, offset).len() implies {
        let c = #[trigger] listed_courses(m, f, limit, offset)[j];
        c.published && !c.is_archived && passes_filters(c, f)
    } by {
        let off = spec_offset(offset) as int;
        let lim = spec_effective_limit(limit) as int;
        let lo = if off > matched.len() {
            matched.len() as int
        } else {
            off
        };
        let n = matched[lo + j];
        scan_ids(m, 1, 0).lemma_filter_pred(pred, lo + j);
        assert(visible_match(m, f, n));
        assert(listed_courses(m, f, limit, offset)[j] == course_of(m, n));
    }
}

/// Pagination returns the (k+1)-th through (k+n)-th matched courses in
/// increasing identifier order; an offset at or beyond the match count
/// returns the empty sequence.
pub proof fn lemma_pagination_window(
    m: Map<StoreKey, RecordV>,
    f: CourseFiltersV,
    limit: Option<u32>,
    offset: Option<u32>,
)
    ensures
        spec_offset(offset) >= matched_ids(m, f).len() ==> listed_courses(
            m,
            f,
            limit,
            offset,
        ).len() == 0,
        spec_offset(offset) < matched_ids(m, f).len() ==> {
            let k = spec_offset(offset) as int;
            let rest = matched_ids(m, f).len() - k;
            let n = spec_effective_limit(limit) as int;
            let l = listed_courses(m, f, limit, offset).len() as int;
            &&& l == (if rest < n {
                rest
            } else {
                n
            })
            &&& forall|j: int|
                0 <= j < l ==> #[trigger] listed_courses(m, f, limit, offset)[j] == course_of(
                    m,
                    matched_ids(m, f)[k + j],
                )
        },
{
}

/// A strictly increasing sequence stays strictly increasing under
/// filtering.
proof fn lemma_filter_keeps_increasing(s: Seq<u64>, pred: spec_fn(u64) -> bool)
    requires
        forall|j1: int, j2: int| 0 <= j1 < j2 < s.len() ==> s[j1] < s[j2],
    ensures
        forall|j1: int, j2: int|
            0 <= j1 < j2 < s.filter(pred).len() ==> #[trigger] s.filter(pred)[j1]
                < #[trigger] s.filter(pred)[j2],
    decreases s.len(),
{
    reveal(Seq::filter);
    if s.len() > 0 {
        let t = s.drop_last();
        assert(forall|j1: int, j2: int| 0 <= j1 < j2 < t.len() ==> t[j1] < t[j2]);
        lemma_filter_keeps_increasing(t, pred);
        if pred(s.last()) {
            assert(s.filter(pred) == t.filter(pred).push(s.last()));
            assert forall|j1: int, j2: int|
                0 <= j1 < j2 < s.filter(pred).len() implies #[trigger] s.filter(pred)[j1]
                < #[trigger] s.filter(pred)[j2] by {
                if j2 == s.filter(pred).len() - 1 {
                    let e = t.filter(pred)[j1];
                    t.lemma_filter_contains_rev(pred, e);
                    let j = choose|j: int| 0 <= j < t.len() && t[j] == e;
                    assert(s[j] == e);
                    assert(e < s.last());
                }
            }
        } else {
            assert(s.filter(pred) == t.filter(pred));
        }
    }
}

/// The bounded scan visits identifiers in strictly increasing order, and
/// never below its starting point.
proof fn lemma_scan_ids_increasing(m: Map<StoreKey, RecordV>, id: int, streak: int)
    ensures
        forall|j: int|
            0 <= j < scan_ids(m, id, streak).len() ==> #[trigger] scan_ids(m, id, streak)[j] >= id,
        forall|j1: int, j2: int|
            0 <= j1 < j2 < scan_ids(m, id, streak).len() ==> #[trigger] scan_ids(m, id, streak)[j1]
                < #[trigger] scan_ids(m, id, streak)[j2],
    decreases MAX_SCAN_ID + 1 - id,
{
    if id < 1 || id > MAX_SCAN_ID as int || streak > MAX_EMPTY_CHECKS as int {
    } else if m.contains_key(StoreKey::CourseKey(id as u64)) {
        lemma_scan_ids_increasing(m, id + 1, 0);
        assert(scan_ids(m, id, streak) == seq![id as u64] + scan_ids(m, id + 1, 0));
    } else {
        lemma_scan_ids_increasing(m, id + 1, streak + 1);
        assert(scan_ids(m, id, streak) == scan_ids(m, id + 1, streak + 1));
    }
}

/// The matched identifiers of the filtered listing are strictly
/// increasing: pages come back in increasing identifier order.
pub proof fn lemma_matched_ids_increasing(m: Map<StoreKey, RecordV>, f: CourseFiltersV)
    ensures
        forall|j1: int, j2: int|
            0 <= j1 < j2 < matched_ids(m, f).len() ==> #[trigger] matched_ids(m, f)[j1]
                < #[trigger] matched_ids(m, f)[j2],
{
    lemma_scan_ids_increasing(m, 1, 0);
    lemma_filter_keeps_increasing(scan_ids(m, 1, 0), |n: u64| visible_match(m, f, n));
}

/// Queries are functions of the stored state alone: two reads of the
/// filtered listing against the same state, filters and page bounds give
/// the same result.  With the state unchanged between calls, repeated
/// calls are idempotent.
pub proof fn lemma_listing_deterministic(
    v1: Seq<CourseV>,
    v2: Seq<CourseV>,
    m: Map<StoreKey, RecordV>,
    f: CourseFiltersV,
    limit: Option<u32>,
    offset: Option<u32>,
)
    requires
        v1 == listed_courses(m, f, limit, offset),
        v2 == listed_courses(m, f, limit, offset),
    ensures
        v1 == v2,
{
}

/// Direct lookup is likewise a function of the stored state alone.
pub proof fn lemma_lookup_deterministic(
    r1: Option<CourseV>,
    r2: Option<CourseV>,
    m: Map<StoreKey, RecordV>,
    id: Seq<char>,
)
    requires
        r1 == lookup_course(m, id),
        r2 == lookup_course(m, id),
    ensures
        r1 == r2,
{
}

/// The module listing is likewise a function of the stored state alone.
pub proof fn lemma_module_listing_deterministic(
    v1: Seq<CourseModuleV>,
    v2: Seq<CourseModuleV>,
    m: Map<StoreKey, RecordV>,
    n: u64,
)
    requires
        v1 == crate::modules::listed_modules(m, n),
        v2 == crate::modules::listed_modules(m, n),
    ensures
        v1 == v2,
{
}

} // verus!
