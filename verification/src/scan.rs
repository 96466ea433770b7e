//! Bounded-scan enumeration over sequential course identifiers.
//!
//! The store offers no iteration, so listings probe identifiers one by one
//! starting at 1.  An empty-check streak counter abandons the scan after
//! too many consecutive absent identifiers, and a hard identifier ceiling
//! bounds the work in any case.  `scan_ids` is the mathematical form of
//! that walk; both listings are verified to return exactly the described
//! window of it.

use vstd::prelude::*;

use crate::Address;
use crate::registry::{course_at, CourseRegistry};
use crate::schema::{
    Course, CourseFilters, CourseFiltersV, CourseV, Error, DEFAULT_PAGE_LIMIT,
    EFFECTIVE_PAGE_CAP, MAX_EMPTY_CHECKS, MAX_LOOP_GUARD, MAX_PAGE_LIMIT, MAX_PAGE_OFFSET,
    MAX_SCAN_ID,
};
use crate::store::{Record, RecordV, StoreKey};

verus! {

broadcast use vstd::seq_lib::group_filter_ensures;

/// The course identifiers the bounded scan visits and finds present,
/// starting at `id` with `streak` consecutive misses already seen.
pub open spec fn scan_ids(m: Map<StoreKey, RecordV>, id: int, streak: int) -> Seq<u64>
    decreases MAX_SCAN_ID + 1 - id,
{
    if id < 1 || id > MAX_SCAN_ID as int || streak > MAX_EMPTY_CHECKS as int {
        Seq::empty()
    } else if m.contains_key(StoreKey::CourseKey(id as u64)) {
        seq![id as u64] + scan_ids(m, id + 1, 0)
    } else {
        scan_ids(m, id + 1, streak + 1)
    }
}

/// The stored course under `n`; meaningful only when one is present.
pub open spec fn course_of(m: Map<StoreKey, RecordV>, n: u64) -> CourseV {
    match course_at(m, n) {
        Some(c) => c,
        None => arbitrary(),
    }
}

/// Whether a course satisfies every supplied filter predicate.  An absent
/// duration fails a duration filter.
pub open spec fn passes_filters(c: CourseV, f: CourseFiltersV) -> bool {
    &&& (f.min_price matches Some(v) ==> c.price >= v)
    &&& (f.max_price matches Some(v) ==> c.price <= v)
    &&& (f.category matches Some(cat) ==> c.category == Some(cat))
    &&& (f.level matches Some(l) ==> c.level == Some(l))
    &&& (f.min_duration matches Some(v) ==> (c.duration_hours matches Some(d) && d >= v))
    &&& (f.max_duration matches Some(v) ==> (c.duration_hours matches Some(d) && d <= v))
}

/// Whether the course under `n` is visible to the filtered listing:
/// present, published, not archived, and passing every filter.
pub open spec fn visible_match(m: Map<StoreKey, RecordV>, f: CourseFiltersV, n: u64) -> bool {
    course_at(m, n) matches Some(c) && c.published && !c.is_archived && passes_filters(c, f)
}

/// Identifiers of the scanned courses that the filtered listing matches,
/// in increasing order.
pub open spec fn matched_ids(m: Map<StoreKey, RecordV>, f: CourseFiltersV) -> Seq<u64> {
    scan_ids(m, 1, 0).filter(|n: u64| visible_match(m, f, n))
}

/// The offset actually applied.
pub open spec fn spec_offset(offset: Option<u32>) -> u32 {
    match offset {
        Some(o) => o,
        None => 0,
    }
}

/// The page size actually applied: the requested size (default
/// `DEFAULT_PAGE_LIMIT`), capped at `EFFECTIVE_PAGE_CAP`.
pub open spec fn spec_effective_limit(limit: Option<u32>) -> u32 {
    let l = match limit {
        Some(l) => l,
        None => DEFAULT_PAGE_LIMIT,
    };
    if l > EFFECTIVE_PAGE_CAP {
        EFFECTIVE_PAGE_CAP
    } else {
        l
    }
}

/// The validation error of the pagination arguments, if any.
pub open spec fn list_validation_error(limit: Option<u32>, offset: Option<u32>) -> Option<Error> {
    if limit matches Some(l) && l > MAX_PAGE_LIMIT {
        Some(Error::InvalidLimitValue)
    } else if offset matches Some(o) && o > MAX_PAGE_OFFSET {
        Some(Error::InvalidOffsetValue)
    } else {
        None
    }
}

/// The page a filtered listing returns: matched courses `offset` through
/// `offset + limit - 1`, clipped to what exists.
pub open spec fn listed_courses(
    m: Map<StoreKey, RecordV>,
    f: CourseFiltersV,
    limit: Option<u32>,
    offset: Option<u32>,
) -> Seq<CourseV> {
    let matched = matched_ids(m, f);
    let off = spec_offset(offset) as int;
    let lim = spec_effective_limit(limit) as int;
    let lo = if off > matched.len() {
        matched.len() as int
    } else {
        off
    };
    let hi = if off + lim > matched.len() {
        matched.len() as int
    } else {
        off + lim
    };
    matched.subrange(lo, hi).map_values(|n: u64| course_of(m, n))
}

/// The identifiers the instructor listing walks: a dense prefix that stops
/// at the first absent identifier or at the loop guard.
pub open spec fn instructor_scan(m: Map<StoreKey, RecordV>, id: int) -> Seq<u64>
    decreases MAX_LOOP_GUARD + 1 - id,
{
    if id < 1 || id > MAX_LOOP_GUARD as int || !m.contains_key(StoreKey::CourseKey(id as u64)) {
        Seq::empty()
    } else {
        seq![id as u64] + instructor_scan(m, id + 1)
    }
}

/// The courses the instructor listing returns, in increasing identifier
/// order: created by `instructor` and not archived.
pub open spec fn instructor_courses(m: Map<StoreKey, RecordV>, instructor: Address) -> Seq<CourseV> {
    instructor_scan(m, 1).filter(
        |n: u64| course_of(m, n).creator == instructor && !course_of(m, n).is_archived,
    ).map_values(|n: u64| course_of(m, n))
}

/// Appending one element to a filtered sequence's source either appends it
/// to the image or leaves the image unchanged.
proof fn lemma_filter_push<A>(s: Seq<A>, pred: spec_fn(A) -> bool, x: A)
    ensures
        pred(x) ==> s.push(x).filter(pred) == s.filter(pred).push(x),
        !pred(x) ==> s.push(x).filter(pred) == s.filter(pred),
{
    reveal(Seq::filter);
    assert(s.push(x).drop_last() =~= s);
    assert(s.push(x).last() == x);
    if pred(x) {
        assert(s.push(x).filter(pred) =~= s.filter(pred).push(x));
    }
}

/// A subrange that ends within a prefix ignores what follows the prefix.
proof fn lemma_subrange_of_prefix<A>(a: Seq<A>, b: Seq<A>, lo: int, hi: int)
    requires
        0 <= lo <= hi <= a.len(),
    ensures
        (a + b).subrange(lo, hi) == a.subrange(lo, hi),
{
    assert((a + b).subrange(lo, hi) =~= a.subrange(lo, hi));
}

impl CourseRegistry {
    /// Lists courses that pass every supplied filter, in increasing
    /// identifier order, applying offset/limit pagination.  Archived and
    /// unpublished courses never appear.  The scan abandons sparse regions
    /// after `MAX_EMPTY_CHECKS` consecutive misses and never walks past
    /// `MAX_SCAN_ID`.
    pub fn list_courses_with_filters(
        &self,
        filters: CourseFilters,
        limit: Option<u32>,
        offset: Option<u32>,
    ) -> (r: Result<Vec<Course>, Error>)
        requires
            self.wf(),
        ensures
            match r {
                Err(e) => Some(e) == list_validation_error(limit, offset),
                Ok(v) => {
                    &&& list_validation_error(limit, offset) is None
                    &&& v.deep_view() == listed_courses(self@, filters@, limit, offset)
                },
            },
    {
        match limit {
            Some(l) => {
                if l > MAX_PAGE_LIMIT {
                    return Err(Error::InvalidLimitValue);
                }
            },
            None => {},
        }
        match offset {
            Some(o) => {
                if o > MAX_PAGE_OFFSET {
                    return Err(Error::InvalidOffsetValue);
                }
            },
            None => {},
        }
        let offset_value: u32 = match offset {
            Some(o) => o,
            None => 0,
        };
        let limit_value: u32 = match limit {
            Some(l) => l,
            None => DEFAULT_PAGE_LIMIT,
        };
        let max_limit: u32 = if limit_value > EFFECTIVE_PAGE_CAP {
            EFFECTIVE_PAGE_CAP
        } else {
            limit_value
        };

        let ghost m = self@;
        let ghost pred = |n: u64| visible_match(m, filters@, n);
        let mut results: Vec<Course> = Vec::new();
        let mut id: u64 = 1;
        let mut count: u32 = 0;
        let mut matched: u32 = 0;
        let mut empty_checks: u32 = 0;
        let ghost processed: Seq<u64> = Seq::empty();
        let ghost matched_pref: Seq<u64> = Seq::empty();

        loop
            invariant
                self.wf(),
                m == self@,
                pred == (|n: u64| visible_match(m, filters@, n)),
                list_validation_error(limit, offset) is None,
                max_limit == spec_effective_limit(limit),
                offset_value == spec_offset(offset),
                1 <= id <= MAX_SCAN_ID + 1,
                empty_checks <= MAX_EMPTY_CHECKS + 1,
                processed.len() < id,
                scan_ids(m, 1, 0) == processed + scan_ids(m, id as int, empty_checks as int),
                matched_pref == processed.filter(pred),
                matched as int == matched_pref.len(),
                count as int == (if matched <= offset_value {
                    0int
                } else {
                    matched - offset_value
                }),
                count <= max_limit,
                results.deep_view().len() == count as int,
                forall|j: int|
                    0 <= j < count ==> results.deep_view()[j] == course_of(
                        m,
                        matched_pref[offset_value + j],
                    ),
            decreases MAX_SCAN_ID + 1 - id,
        {
            if id > MAX_SCAN_ID || empty_checks > MAX_EMPTY_CHECKS {
                proof {
                    assert(scan_ids(m, id as int, empty_checks as int) =~= Seq::<u64>::empty());
                    assert(scan_ids(m, 1, 0) =~= processed);
                    lemma_page_from_prefix(
                        m,
                        filters@,
                        limit,
                        offset,
                        matched_pref,
                        results.deep_view(),
                    );
                }
                return Ok(results);
            }
            let present = self.store_has(StoreKey::CourseKey(id));
            if !present {
                proof {
                    assert(scan_ids(m, id as int, empty_checks as int) == scan_ids(
                        m,
                        id as int + 1,
                        empty_checks as int + 1,
                    ));
                }
                empty_checks = empty_checks + 1;
                id = id + 1;
                continue;
            }
            let course = match self.store_get(StoreKey::CourseKey(id)) {
                Some(Record::CourseRec(c)) => c,
                _ => {
                    proof {
                        assert(false);
                    }
                    return Err(Error::CourseNotFound);
                },
            };
            proof {
                assert(scan_ids(m, id as int, empty_checks as int) == seq![id] + scan_ids(
                    m,
                    id as int + 1,
                    0,
                ));
                assert(processed.push(id) + scan_ids(m, id as int + 1, 0) =~= processed + (seq![id]
                    + scan_ids(m, id as int + 1, 0)));
                lemma_filter_push(processed, pred, id);
            }
            empty_checks = 0;
            let ghost prev_processed = processed;
            proof {
                processed = processed.push(id);
            }

            // Visibility and filter predicates, evaluated on the record.
            let visible = course.published && !course.is_archived;
            let mut passes = visible;
            if passes {
                match filters.min_price {
                    Some(v) => {
                        if course.price < v {
                            passes = false;
                        }
                    },
                    None => {},
                }
            }
            if passes {
                match filters.max_price {
                    Some(v) => {
                        if course.price > v {
                            passes = false;
                        }
                    },
                    None => {},
                }
            }
            if passes {
                match &filters.category {
                    Some(cat) => {
                        match &course.category {
                            Some(c2) => {
                                if !c2.eq(cat) {
                                    passes = false;
                                }
                            },
                            None => {
                                passes = false;
                            },
                        }
                    },
                    None => {},
                }
            }
            if passes {
                match &filters.level {
                    Some(lvl) => {
                        match &course.level {
                            Some(l2) => {
                                if !l2.eq(lvl) {
                                    passes = false;
                                }
                            },
                            None => {
                                passes = false;
                            },
                        }
                    },
                    None => {},
                }
            }
            if passes {
                match filters.min_duration {
                    Some(v) => {
                        match course.duration_hours {
                            Some(d) => {
                                if d < v {
                                    passes = false;
                                }
                            },
                            None => {
                                passes = false;
                            },
                        }
                    },
                    None => {},
                }
            }
            if passes {
                match filters.max_duration {
                    Some(v) => {
                        match course.duration_hours {
                            Some(d) => {
                                if d > v {
                                    passes = false;
                                }
                            },
                            None => {
                                passes = false;
                            },
                        }
                    },
                    None => {},
                }
            }
            proof {
                assert(passes == pred(id));
            }

            if passes {
                proof {
                    matched_pref = matched_pref.push(id);
                }
                if matched >= offset_value {
                    if count < max_limit {
                        let ghost old_dv = results.deep_view();
                        let dup = course.duplicate();
                        proof {
                            assert(course_at(m, id) == Some(dup@));
                        }
                        results.push(dup);
                        count = count + 1;
                        proof {
                            assert(results.deep_view() =~= old_dv.push(course_of(m, id)));
                            assert(matched_pref[offset_value + (count - 1)] == id);
                            assert(forall|j: int|
                                0 <= j < count - 1 ==> #[trigger] matched_pref[offset_value + j]
                                    == matched_pref.drop_last()[offset_value + j]);
                        }
                    } else {
                        // The page is full: every further match lies beyond
                        // the requested window.
                        proof {
                            assert(matched_pref.len() > offset_value + max_limit);
                            lemma_page_from_long_prefix(
                                m,
                                filters@,
                                limit,
                                offset,
                                matched_pref,
                                scan_ids(m, id as int + 1, 0).filter(pred),
                                results.deep_view(),
                            );
                        }
                        return Ok(results);
                    }
                }
                matched = matched + 1;
            }
            id = id + 1;
        }
    }

    /// Lists every course of one instructor, in increasing identifier
    /// order, skipping archived ones.  The scan walks identifiers from 1
    /// and stops at the first absent one or at `MAX_LOOP_GUARD`.
    pub fn get_courses_by_instructor(&self, instructor: Address) -> (r: Vec<Course>)
        requires
            self.wf(),
        ensures
            r.deep_view() == instructor_courses(self@, instructor),
    {
        let ghost m = self@;
        let ghost pred = |n: u64| course_of(m, n).creator == instructor && !course_of(
            m,
            n,
        ).is_archived;
        let mut results: Vec<Course> = Vec::new();
        let mut id: u64 = 1;
        let ghost processed: Seq<u64> = Seq::empty();

        loop
            invariant
                self.wf(),
                m == self@,
                pred == (|n: u64| course_of(m, n).creator == instructor && !course_of(
                    m,
                    n,
                ).is_archived),
                1 <= id <= MAX_LOOP_GUARD + 1,
                instructor_scan(m, 1) == processed + instructor_scan(m, id as int),
                results.deep_view() == processed.filter(pred).map_values(
                    |n: u64| course_of(m, n),
                ),
            decreases MAX_LOOP_GUARD + 1 - id,
        {
            if id > MAX_LOOP_GUARD as u64 {
                proof {
                    assert(instructor_scan(m, id as int) =~= Seq::<u64>::empty());
                    assert(instructor_scan(m, 1) =~= processed);
                }
                return results;
            }
            let present = self.store_has(StoreKey::CourseKey(id));
            if !present {
                proof {
                    assert(instructor_scan(m, id as int) =~= Seq::<u64>::empty());
                    assert(instructor_scan(m, 1) =~= processed);
                }
                return results;
            }
            let course = match self.store_get(StoreKey::CourseKey(id)) {
                Some(Record::CourseRec(c)) => c,
                _ => {
                    proof {
                        assert(false);
                    }
                    return results;
                },
            };
            proof {
                assert(instructor_scan(m, id as int) == seq![id] + instructor_scan(
                    m,
                    id as int + 1,
                ));
                assert(processed.push(id) + instructor_scan(m, id as int + 1) =~= processed + (seq![
                    id,
                ] + instructor_scan(m, id as int + 1)));
                lemma_filter_push(processed, pred, id);
            }
            proof {
                assert(course_at(m, id) == Some(course@));
            }
            let is_match = course.creator.0 == instructor.0 && !course.is_archived;
            proof {
                assert(is_match == pred(id));
            }
            if is_match {
                let ghost old_dv = results.deep_view();
                let dup = course.duplicate();
                results.push(dup);
                proof {
                    assert(results.deep_view() =~= old_dv.push(course_of(m, id)));
                    assert(processed.push(id).filter(pred) == processed.filter(pred).push(id));
                    assert(results.deep_view() =~= processed.push(id).filter(pred).map_values(
                        |n: u64| course_of(m, n),
                    ));
                }
            }
            proof {
                processed = processed.push(id);
            }
            id = id + 1;
        }
    }
}

/// When the scan has been walked to its end, the collected page is exactly
/// the described window of the matched sequence.
proof fn lemma_page_from_prefix(
    m: Map<StoreKey, RecordV>,
    f: CourseFiltersV,
    limit: Option<u32>,
    offset: Option<u32>,
    matched_pref: Seq<u64>,
    results: Seq<CourseV>,
)
    requires
        matched_ids(m, f) == matched_pref,
        results.len() == (if matched_pref.len() <= spec_offset(offset) {
            0int
        } else {
            matched_pref.len() - spec_offset(offset)
        }),
        results.len() <= spec_effective_limit(limit) as int,
        forall|j: int|
            0 <= j < results.len() ==> results[j] == course_of(
                m,
                matched_pref[spec_offset(offset) + j],
            ),
    ensures
        results == listed_courses(m, f, limit, offset),
{
    let off = spec_offset(offset) as int;
    let lim = spec_effective_limit(limit) as int;
    let len = matched_pref.len() as int;
    let lo = if off > len {
        len
    } else {
        off
    };
    let hi = if off + lim > len {
        len
    } else {
        off + lim
    };
    assert(results =~= matched_pref.subrange(lo, hi).map_values(|n: u64| course_of(m, n)));
}

/// When the page filled up mid-scan, every later match lies beyond the
/// window, so the collected page is already the described one.
proof fn lemma_page_from_long_prefix(
    m: Map<StoreKey, RecordV>,
    f: CourseFiltersV,
    limit: Option<u32>,
    offset: Option<u32>,
    matched_pref: Seq<u64>,
    matched_rest: Seq<u64>,
    results: Seq<CourseV>,
)
    requires
        matched_ids(m, f) == matched_pref + matched_rest,
        matched_pref.len() > spec_offset(offset) + spec_effective_limit(limit),
        results.len() == spec_effective_limit(limit) as int,
        forall|j: int|
            0 <= j < results.len() ==> results[j] == course_of(
                m,
                matched_pref[spec_offset(offset) + j],
            ),
    ensures
        results == listed_courses(m, f, limit, offset),
{
    let off = spec_offset(offset) as int;
    let lim = spec_effective_limit(limit) as int;
    let full = matched_pref + matched_rest;
    let len = full.len() as int;
    assert(len >= matched_pref.len());
    let lo = off;
    let hi = off + lim;
    assert(hi <= matched_pref.len());
    lemma_subrange_of_prefix(matched_pref, matched_rest, lo, hi);
    assert(full.subrange(lo, hi) == matched_pref.subrange(lo, hi));
    assert(results =~= matched_pref.subrange(lo, hi).map_values(|n: u64| course_of(m, n)));
}

} // verus!
