//! Learning goals of courses, keyed by (course, goal number); goal numbers
//! come from their own allocator and are surfaced as decimal strings.

use vstd::prelude::*;

use crate::Address;
use crate::ids::{dec_digits, lemma_dec_digits_wf, parse_dec_u64, u64_to_dec_string};
use crate::registry::{
    categories_wf, counters_wf, course_id_num, courses_wf, goals_wf, lemma_categories_wf_insert,
    lemma_course_id_num_none, lemma_wf_remove, lookup_course, modules_wf, spec_goal_counter,
    version_wf, CourseRegistry,
};
use crate::schema::{CourseGoal, CourseGoalV, Error, MAX_COURSE_ID_LEN};
use crate::store::{Record, RecordV, StoreKey};

verus! {

/// The goal stored under (course `n`, goal `g`), if any.
pub open spec fn goal_at(m: Map<StoreKey, RecordV>, n: u64, g: u64) -> Option<CourseGoalV> {
    if m.contains_key(StoreKey::GoalKey(n, g)) {
        match m[StoreKey::GoalKey(n, g)] {
            RecordV::GoalRec(gv) => Some(gv),
            _ => None,
        }
    } else {
        None
    }
}

/// The goal the caller-supplied identifier strings denote, if any.
pub open spec fn lookup_goal(
    m: Map<StoreKey, RecordV>,
    course_id: Seq<char>,
    goal_id: Seq<char>,
) -> Option<CourseGoalV> {
    match (course_id_num(course_id), course_id_num(goal_id)) {
        (Some(n), Some(g)) => goal_at(m, n, g),
        _ => None,
    }
}

/// The error `add_goal` reports for these arguments, if any.
pub open spec fn add_goal_error(
    m: Map<StoreKey, RecordV>,
    creator: Address,
    course_id: Seq<char>,
    content_hash: Seq<char>,
) -> Option<Error> {
    if course_id.len() == 0 {
        Some(Error::EmptyCourseId)
    } else if content_hash.len() == 0 {
        Some(Error::EmptyGoalContent)
    } else if course_id.len() > MAX_COURSE_ID_LEN {
        Some(Error::InvalidCourseId)
    } else {
        match lookup_course(m, course_id) {
            None => Some(Error::CourseNotFound),
            Some(c) => if c.creator != creator {
                Some(Error::OnlyCreatorCanAddGoals)
            } else {
                None
            },
        }
    }
}

/// The error `edit_goal` reports for these arguments, if any.
pub open spec fn edit_goal_error(
    m: Map<StoreKey, RecordV>,
    creator: Address,
    course_id: Seq<char>,
    goal_id: Seq<char>,
    new_content_hash: Seq<char>,
) -> Option<Error> {
    if course_id.len() == 0 {
        Some(Error::EmptyCourseId)
    } else if goal_id.len() == 0 {
        Some(Error::EmptyGoalId)
    } else if new_content_hash.len() == 0 {
        Some(Error::EmptyNewGoalContent)
    } else {
        match lookup_course(m, course_id) {
            None => Some(Error::CourseNotFound),
            Some(c) => if c.creator != creator {
                Some(Error::Unauthorized)
            } else if lookup_goal(m, course_id, goal_id) is None {
                Some(Error::GoalNotFound)
            } else {
                None
            },
        }
    }
}

/// The error `remove_goal` reports for these arguments, if any.
pub open spec fn remove_goal_error(
    m: Map<StoreKey, RecordV>,
    caller: Address,
    course_id: Seq<char>,
    goal_id: Seq<char>,
) -> Option<Error> {
    if course_id.len() == 0 {
        Some(Error::EmptyCourseId)
    } else if goal_id.len() == 0 {
        Some(Error::EmptyGoalId)
    } else {
        match lookup_course(m, course_id) {
            None => Some(Error::CourseNotFound),
            Some(c) => if c.creator != caller {
                Some(Error::Unauthorized)
            } else if lookup_goal(m, course_id, goal_id) is None {
                Some(Error::GoalNotFound)
            } else {
                None
            },
        }
    }
}

impl CourseRegistry {
    /// Adds a goal to a course.  Only the course's creator may add goals;
    /// the goal number comes from its own allocator and is returned in
    /// canonical decimal form.
    pub fn add_goal(
        &mut self,
        creator: Address,
        course_id: &String,
        content_hash: String,
        now: u64,
    ) -> (r: Result<CourseGoal, Error>)
        requires
            old(self).wf(),
            spec_goal_counter(old(self)@) < u64::MAX,
        ensures
            final(self).wf(),
            match r {
                Err(e) => {
                    &&& Some(e) == add_goal_error(old(self)@, creator, course_id@, content_hash@)
                    &&& *final(self) == *old(self)
                },
                Ok(g) => {
                    &&& add_goal_error(old(self)@, creator, course_id@, content_hash@) is None
                    &&& g@.course_id == course_id@
                    &&& g@.goal_id == dec_digits((spec_goal_counter(old(self)@) + 1) as nat)
                    &&& g@.content_hash == content_hash@
                    &&& g@.created_by == creator
                    &&& g@.created_at == now
                    &&& course_id_num(course_id@) matches Some(n) && final(self)@ == old(
                        self,
                    )@.insert(
                        StoreKey::GoalCounter,
                        RecordV::Counter((spec_goal_counter(old(self)@) + 1) as u64),
                    ).insert(
                        StoreKey::GoalKey(n, (spec_goal_counter(old(self)@) + 1) as u64),
                        RecordV::GoalRec(g@),
                    )
                },
            },
    {
        let id_len = course_id.as_str().unicode_len();
        if id_len == 0 {
            return Err(Error::EmptyCourseId);
        }
        if content_hash.as_str().unicode_len() == 0 {
            return Err(Error::EmptyGoalContent);
        }
        if id_len > MAX_COURSE_ID_LEN {
            return Err(Error::InvalidCourseId);
        }
        let n = match parse_dec_u64(course_id.as_str()) {
            Some(n) => n,
            None => {
                proof {
                    lemma_course_id_num_none(course_id@);
                }
                return Err(Error::CourseNotFound);
            },
        };
        proof {
            lemma_dec_digits_wf(n as nat);
            assert(course_id_num(course_id@) == Some(n));
        }
        let course_creator = match self.store_get(StoreKey::CourseKey(n)) {
            Some(Record::CourseRec(c)) => c.creator,
            _ => {
                return Err(Error::CourseNotFound);
            },
        };
        if course_creator.0 != creator.0 {
            return Err(Error::OnlyCreatorCanAddGoals);
        }
        let cur = match self.store_get(StoreKey::GoalCounter) {
            Some(Record::Counter(v)) => *v,
            _ => 0,
        };
        let g_num = cur + 1;
        self.store_set(StoreKey::GoalCounter, Record::Counter(g_num));
        let ghost m1 = self@;
        let goal = CourseGoal {
            course_id: course_id.clone(),
            goal_id: u64_to_dec_string(g_num),
            content_hash,
            created_by: creator,
            created_at: now,
        };
        self.store_set(StoreKey::GoalKey(n, g_num), Record::GoalRec(goal.duplicate()));
        proof {
            lemma_dec_digits_wf(g_num as nat);
            assert(counters_wf(self@));
            assert(courses_wf(self@));
            assert(modules_wf(self@));
            assert(goals_wf(self@)) by {
                assert(spec_goal_counter(self@) == g_num);
                assert(forall|c2: u64, g2: u64|
                    #[trigger] self@.contains_key(StoreKey::GoalKey(c2, g2)) ==> old(
                        self,
                    )@.contains_key(StoreKey::GoalKey(c2, g2)) || (c2 == n && g2 == g_num));
            }
            assert(categories_wf(self@)) by {
                lemma_categories_wf_insert(old(self)@, StoreKey::GoalCounter, RecordV::Counter(g_num));
                lemma_categories_wf_insert(m1, StoreKey::GoalKey(n, g_num), RecordV::GoalRec(goal@));
            }
            assert(version_wf(self@));
        }
        Ok(goal)
    }

    /// Replaces a goal's content hash.  Only the course's creator may edit.
    pub fn edit_goal(
        &mut self,
        creator: Address,
        course_id: &String,
        goal_id: &String,
        new_content_hash: String,
    ) -> (r: Result<CourseGoal, Error>)
        requires
            old(self).wf(),
        ensures
            final(self).wf(),
            match r {
                Err(e) => {
                    &&& Some(e) == edit_goal_error(
                        old(self)@,
                        creator,
                        course_id@,
                        goal_id@,
                        new_content_hash@,
                    )
                    &&& *final(self) == *old(self)
                },
                Ok(g) => {
                    &&& edit_goal_error(
                        old(self)@,
                        creator,
                        course_id@,
                        goal_id@,
                        new_content_hash@,
                    ) is None
                    &&& lookup_goal(old(self)@, course_id@, goal_id@) matches Some(stored)
                        && g@ == (CourseGoalV { content_hash: new_content_hash@, ..stored })
                    &&& course_id_num(course_id@) matches Some(n) && course_id_num(goal_id@)
                        matches Some(gn) && final(self)@ == old(self)@.insert(
                        StoreKey::GoalKey(n, gn),
                        RecordV::GoalRec(g@),
                    )
                },
            },
    {
        if course_id.as_str().unicode_len() == 0 {
            return Err(Error::EmptyCourseId);
        }
        if goal_id.as_str().unicode_len() == 0 {
            return Err(Error::EmptyGoalId);
        }
        if new_content_hash.as_str().unicode_len() == 0 {
            return Err(Error::EmptyNewGoalContent);
        }
        let n = match parse_dec_u64(course_id.as_str()) {
            Some(n) => n,
            None => {
                proof {
                    lemma_course_id_num_none(course_id@);
                }
                return Err(Error::CourseNotFound);
            },
        };
        proof {
            lemma_dec_digits_wf(n as nat);
        }
        let course_creator = match self.store_get(StoreKey::CourseKey(n)) {
            Some(Record::CourseRec(c)) => c.creator,
            _ => {
                return Err(Error::CourseNotFound);
            },
        };
        if course_creator.0 != creator.0 {
            return Err(Error::Unauthorized);
        }
        let gn = match parse_dec_u64(goal_id.as_str()) {
            Some(gn) => gn,
            None => {
                proof {
                    lemma_course_id_num_none(goal_id@);
                }
                return Err(Error::GoalNotFound);
            },
        };
        proof {
            lemma_dec_digits_wf(gn as nat);
        }
        let stored = match self.store_get(StoreKey::GoalKey(n, gn)) {
            Some(Record::GoalRec(g)) => g,
            _ => {
                return Err(Error::GoalNotFound);
            },
        };
        let mut goal = stored.duplicate();
        goal.content_hash = new_content_hash;
        self.store_set(StoreKey::GoalKey(n, gn), Record::GoalRec(goal.duplicate()));
        proof {
            assert(counters_wf(self@));
            assert(courses_wf(self@));
            assert(modules_wf(self@));
            assert(goals_wf(self@)) by {
                assert(forall|c2: u64, g2: u64|
                    #[trigger] self@.contains_key(StoreKey::GoalKey(c2, g2)) ==> old(
                        self,
                    )@.contains_key(StoreKey::GoalKey(c2, g2)));
            }
            assert(categories_wf(self@)) by {
                lemma_categories_wf_insert(old(self)@, StoreKey::GoalKey(n, gn), RecordV::GoalRec(goal@));
            }
            assert(version_wf(self@));
        }
        Ok(goal)
    }

    /// Removes a goal from a course.  Only the course's creator may remove
    /// goals; the goal's course reference is checked against the course it
    /// is looked up under.
    pub fn remove_goal(&mut self, caller: Address, course_id: &String, goal_id: &String) -> (r:
        Result<(), Error>)
        requires
            old(self).wf(),
        ensures
            final(self).wf(),
            match r {
                Err(e) => {
                    &&& Some(e) == remove_goal_error(old(self)@, caller, course_id@, goal_id@)
                    &&& *final(self) == *old(self)
                },
                Ok(()) => {
                    &&& remove_goal_error(old(self)@, caller, course_id@, goal_id@) is None
                    &&& course_id_num(course_id@) matches Some(n) && course_id_num(goal_id@)
                        matches Some(gn) && final(self)@ == old(self)@.remove(
                        StoreKey::GoalKey(n, gn),
                    )
                },
            },
    {
        if course_id.as_str().unicode_len() == 0 {
            return Err(Error::EmptyCourseId);
        }
        if goal_id.as_str().unicode_len() == 0 {
            return Err(Error::EmptyGoalId);
        }
        let n = match parse_dec_u64(course_id.as_str()) {
            Some(n) => n,
            None => {
                proof {
                    lemma_course_id_num_none(course_id@);
                }
                return Err(Error::CourseNotFound);
            },
        };
        proof {
            lemma_dec_digits_wf(n as nat);
        }
        let course_creator = match self.store_get(StoreKey::CourseKey(n)) {
            Some(Record::CourseRec(c)) => c.creator,
            _ => {
                return Err(Error::CourseNotFound);
            },
        };
        if course_creator.0 != caller.0 {
            return Err(Error::Unauthorized);
        }
        let gn = match parse_dec_u64(goal_id.as_str()) {
            Some(gn) => gn,
            None => {
                proof {
                    lemma_course_id_num_none(goal_id@);
                }
                return Err(Error::GoalNotFound);
            },
        };
        proof {
            lemma_dec_digits_wf(gn as nat);
        }
        let same_course = match self.store_get(StoreKey::GoalKey(n, gn)) {
            Some(Record::GoalRec(g)) => g.course_id.eq(course_id),
            _ => {
                return Err(Error::GoalNotFound);
            },
        };
        // The goal is keyed under the course, so its stored course
        // reference always matches the one it was looked up under.
        proof {
            assert(same_course);
        }
        if !same_course {
            return Err(Error::GoalCourseMismatch);
        }
        self.store_remove(StoreKey::GoalKey(n, gn));
        proof {
            lemma_wf_remove(old(self)@, StoreKey::GoalKey(n, gn));
        }
        Ok(())
    }
}

} // verus!
