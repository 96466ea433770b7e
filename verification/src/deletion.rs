//! Bulk deletion of a course: the one operation that physically removes a
//! course record, together with its dependent goals, position markers and
//! modules.
//!
//! Goals are swept through the goal allocator's range; markers and modules
//! are found by the same bounded reconstruction scan the listing uses, so
//! a module whose ledger sequence number lies outside the probed range
//! survives as an orphan — the structural weakness of reconstruction,
//! shared with `list_modules`.  Deletion leaves gaps in the identifier
//! space; the empty-check streak of the scanners is what bounds the cost
//! of walking over them.

use vstd::prelude::*;

use crate::Address;
use crate::ids::{lemma_dec_digits_wf, parse_dec_u64};
use crate::modules::{find_module_seq, position_scan};
use crate::registry::{
    categories_wf, category_name, counters_wf, courses_wf, goals_wf, lemma_course_id_num_none,
    lookup_course, modules_wf, spec_goal_counter, version_wf, CourseRegistry,
};
use crate::schema::{Error, MAX_EMPTY_CHECKS, MAX_LOOP_GUARD, MODULE_SEQ_PROBE_LIMIT};
use crate::store::{RecordV, StoreKey};

verus! {

/// The keys `delete_course` removes for course `n`, judged against the
/// state `m0` the call started from: the course itself, every goal the
/// allocator could have produced, and every marker and first-probed module
/// the bounded reconstruction scan reaches.
pub open spec fn deleted_course_keys(m0: Map<StoreKey, RecordV>, n: u64) -> Set<StoreKey> {
    Set::new(
        |k: StoreKey|
            match k {
                StoreKey::CourseKey(n2) => n2 == n,
                StoreKey::GoalKey(n2, g) => n2 == n && 1 <= g && g <= spec_goal_counter(m0),
                StoreKey::PositionTaken(n2, p) => n2 == n && position_scan(
                    m0,
                    n,
                    0,
                    0,
                ).contains(p),
                StoreKey::ModuleKey(n2, p, q) => n2 == n && position_scan(m0, n, 0, 0).contains(p)
                    && find_module_seq(m0, n, p, 0) == Some(q),
                _ => false,
            },
    )
}

/// The error `delete_course` reports, if any.
pub open spec fn delete_course_error(
    m: Map<StoreKey, RecordV>,
    creator: Address,
    course_id: Seq<char>,
) -> Option<Error> {
    match lookup_course(m, course_id) {
        None => Some(Error::CourseNotFound),
        Some(c) => if c.creator != creator {
            Some(Error::Unauthorized)
        } else {
            None
        },
    }
}

/// Removing any set of keys that spares the three allocator records
/// preserves every well-formedness component.
proof fn lemma_wf_remove_keys(m0: Map<StoreKey, RecordV>, s: Set<StoreKey>)
    requires
        counters_wf(m0),
        courses_wf(m0),
        modules_wf(m0),
        goals_wf(m0),
        categories_wf(m0),
        version_wf(m0),
        !s.contains(StoreKey::CourseCounter),
        !s.contains(StoreKey::GoalCounter),
        !s.contains(StoreKey::CategoryCounter),
    ensures
        counters_wf(m0.remove_keys(s)),
        courses_wf(m0.remove_keys(s)),
        modules_wf(m0.remove_keys(s)),
        goals_wf(m0.remove_keys(s)),
        categories_wf(m0.remove_keys(s)),
        version_wf(m0.remove_keys(s)),
{
    let m2 = m0.remove_keys(s);
    assert(crate::registry::spec_course_counter(m2) == crate::registry::spec_course_counter(m0));
    assert(spec_goal_counter(m2) == spec_goal_counter(m0));
    assert(crate::registry::spec_category_counter(m2) == crate::registry::spec_category_counter(
        m0,
    ));
    assert forall|i: u64, j: u64|
        #![trigger category_name(m2, i), category_name(m2, j)]
        (i != j && category_name(m2, i) is Some) implies category_name(m2, i) != category_name(
        m2,
        j,
    ) by {
        assert(category_name(m2, i) == category_name(m0, i));
        if category_name(m2, j) is Some {
            assert(category_name(m2, j) == category_name(m0, j));
        }
    }
}

/// Removing one more key extends the removed set.
proof fn lemma_remove_keys_step(m0: Map<StoreKey, RecordV>, s: Set<StoreKey>, k: StoreKey)
    ensures
        m0.remove_keys(s).remove(k) == m0.remove_keys(s.insert(k)),
{
    assert(m0.remove_keys(s).remove(k) =~= m0.remove_keys(s.insert(k)));
}

impl CourseRegistry {
    /// Permanently deletes a course, its goals, and the markers and
    /// modules the reconstruction scan finds.  Only the creator may
    /// delete.
    pub fn delete_course(&mut self, creator: Address, course_id: &String) -> (r: Result<(), Error>)
        requires
            old(self).wf(),
        ensures
            final(self).wf(),
            match r {
                Err(e) => {
                    &&& Some(e) == delete_course_error(old(self)@, creator, course_id@)
                    &&& *final(self) == *old(self)
                },
                Ok(()) => {
                    &&& delete_course_error(old(self)@, creator, course_id@) is None
                    &&& crate::registry::course_id_num(course_id@) matches Some(n)
                        && final(self)@ == old(self)@.remove_keys(
                        deleted_course_keys(old(self)@, n),
                    )
                },
            },
    {
        let n = match parse_dec_u64(course_id.as_str()) {
            Some(n) => n,
            None => {
                proof {
                    lemma_course_id_num_none(course_id@);
                }
                return Err(Error::CourseNotFound);
            },
        };
        proof {
            lemma_dec_digits_wf(n as nat);
        }
        let stored_creator = match self.store_get(StoreKey::CourseKey(n)) {
            Some(crate::store::Record::CourseRec(c)) => c.creator,
            _ => {
                return Err(Error::CourseNotFound);
            },
        };
        if stored_creator.0 != creator.0 {
            return Err(Error::Unauthorized);
        }

        let ghost m0 = self@;
        let ghost full = deleted_course_keys(m0, n);

        // Sweep the goals through the allocator's range.
        let gc = match self.store_get(StoreKey::GoalCounter) {
            Some(crate::store::Record::Counter(v)) => *v,
            _ => 0,
        };
        let mut i: u64 = 0;
        let ghost mut removed: Set<StoreKey> = Set::empty();
        while i < gc
            invariant
                self.inner_wf(),
                spec_goal_counter(m0) == gc,
                0 <= i <= gc,
                removed == (Set::new(
                    |k: StoreKey|
                        match k {
                            StoreKey::GoalKey(n2, g) => n2 == n && 1 <= g && g <= i,
                            _ => false,
                        },
                )),
                self@ == m0.remove_keys(removed),
            decreases gc - i,
        {
            self.store_remove(StoreKey::GoalKey(n, i + 1));
            proof {
                lemma_remove_keys_step(m0, removed, StoreKey::GoalKey(n, (i + 1) as u64));
                removed = removed.insert(StoreKey::GoalKey(n, (i + 1) as u64));
                assert(removed =~= (Set::new(
                    |k: StoreKey|
                        match k {
                            StoreKey::GoalKey(n2, g) => n2 == n && 1 <= g && g <= i + 1,
                            _ => false,
                        },
                )));
            }
            i = i + 1;
        }

        // Reconstruct and remove markers and modules, position by
        // position, with the same bounds as the listing.
        let mut position: u32 = 0;
        let mut empty_streak: u32 = 0;
        let ghost mut processed: Seq<u32> = Seq::empty();
        while position <= MAX_LOOP_GUARD && empty_streak <= MAX_EMPTY_CHECKS
            invariant
                self.inner_wf(),
                spec_goal_counter(m0) == gc,
                position <= MAX_LOOP_GUARD + 1,
                empty_streak <= MAX_EMPTY_CHECKS + 1,
                position_scan(m0, n, 0, 0) == processed + position_scan(
                    m0,
                    n,
                    position as int,
                    empty_streak as int,
                ),
                forall|j: int| 0 <= j < processed.len() ==> #[trigger] processed[j] < position,
                removed == goal_and_position_keys(m0, n, gc, processed),
                self@ == m0.remove_keys(removed),
            decreases MAX_LOOP_GUARD + 1 - position,
        {
            let marker_key = StoreKey::PositionTaken(n, position);
            proof {
                assert(!processed.contains(position));
                assert(!removed.contains(marker_key));
                assert(self@.contains_key(marker_key) == m0.contains_key(marker_key));
            }
            if self.store_has(marker_key) {
                proof {
                    assert(position_scan(m0, n, position as int, empty_streak as int) == seq![
                        position,
                    ] + position_scan(m0, n, position as int + 1, 0));
                }
                // Probe candidate sequence numbers for the module behind
                // this marker and remove the first hit.
                let mut seq_no: u32 = 0;
                let mut found = false;
                while seq_no < MODULE_SEQ_PROBE_LIMIT && !found
                    invariant
                        self.inner_wf(),
                        seq_no <= MODULE_SEQ_PROBE_LIMIT,
                        removed == goal_and_position_keys(m0, n, gc, processed),
                        self@ == m0.remove_keys(removed),
                        forall|j: int|
                            0 <= j < processed.len() ==> #[trigger] processed[j] < position,
                        forall|q: u32|
                            !#[trigger] removed.contains(StoreKey::ModuleKey(n, position, q)),
                        !found ==> find_module_seq(m0, n, position, 0) == find_module_seq(
                            m0,
                            n,
                            position,
                            seq_no as int,
                        ),
                        found ==> find_module_seq(m0, n, position, 0) == Some(seq_no),
                    decreases MODULE_SEQ_PROBE_LIMIT - seq_no, 1int + (if found {
                        0int
                    } else {
                        1int
                    }),
                {
                    let module_key = StoreKey::ModuleKey(n, position, seq_no);
                    proof {
                        assert(self@.contains_key(module_key) == m0.contains_key(module_key));
                    }
                    if self.store_has(module_key) {
                        proof {
                            assert(find_module_seq(m0, n, position, seq_no as int) == Some(
                                seq_no,
                            ));
                        }
                        found = true;
                    } else {
                        proof {
                            assert(find_module_seq(m0, n, position, seq_no as int)
                                == find_module_seq(m0, n, position, seq_no as int + 1));
                        }
                        seq_no = seq_no + 1;
                    }
                }
                if found {
                    self.store_remove(StoreKey::ModuleKey(n, position, seq_no));
                    proof {
                        lemma_remove_keys_step(
                            m0,
                            removed,
                            StoreKey::ModuleKey(n, position, seq_no),
                        );
                        removed = removed.insert(StoreKey::ModuleKey(n, position, seq_no));
                    }
                } else {
                    proof {
                        assert(find_module_seq(m0, n, position, MODULE_SEQ_PROBE_LIMIT as int)
                            is None);
                    }
                }
                self.store_remove(marker_key);
                proof {
                    lemma_remove_keys_step(m0, removed, marker_key);
                    removed = removed.insert(marker_key);
                    let new_processed = processed.push(position);
                    assert(new_processed[processed.len() as int] == position);
                    assert(new_processed.contains(position));
                    assert forall|p: u32| #[trigger] new_processed.contains(p) implies (
                    processed.contains(p) || p == position) by {
                        let j = choose|j: int|
                            0 <= j < new_processed.len() && new_processed[j] == p;
                        if j < processed.len() {
                            assert(processed[j] == p);
                        }
                    }
                    assert forall|p: u32| #[trigger] processed.contains(p) implies
                        new_processed.contains(p) by {
                        let j = choose|j: int| 0 <= j < processed.len() && processed[j] == p;
                        assert(new_processed[j] == p);
                    }
                    processed = new_processed;
                    assert(removed =~= goal_and_position_keys(m0, n, gc, processed));
                }
                empty_streak = 0;
            } else {
                proof {
                    assert(position_scan(m0, n, position as int, empty_streak as int)
                        == position_scan(m0, n, position as int + 1, empty_streak as int + 1));
                }
                empty_streak = empty_streak + 1;
            }
            position = position + 1;
        }

        // Finally the course record itself.
        self.store_remove(StoreKey::CourseKey(n));
        proof {
            lemma_remove_keys_step(m0, removed, StoreKey::CourseKey(n));
            removed = removed.insert(StoreKey::CourseKey(n));
            assert(position_scan(m0, n, position as int, empty_streak as int)
                =~= Seq::<u32>::empty());
            assert(position_scan(m0, n, 0, 0) =~= processed);
            assert(removed =~= full);
            lemma_wf_remove_keys(m0, full);
        }
        Ok(())
    }
}

/// The goal keys of the allocator range together with the marker and
/// first-probed module keys of the processed positions: the removal set
/// mid-sweep.
pub open spec fn goal_and_position_keys(
    m0: Map<StoreKey, RecordV>,
    n: u64,
    gc: u64,
    processed: Seq<u32>,
) -> Set<StoreKey> {
    Set::new(
        |k: StoreKey|
            match k {
                StoreKey::GoalKey(n2, g) => n2 == n && 1 <= g && g <= gc,
                StoreKey::PositionTaken(n2, p) => n2 == n && processed.contains(p),
                StoreKey::ModuleKey(n2, p, q) => n2 == n && processed.contains(p)
                    && find_module_seq(m0, n, p, 0) == Some(q),
                _ => false,
            },
    )
}

} // verus!
