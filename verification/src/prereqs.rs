//! Prerequisite lists of courses: ordered course identifiers validated
//! against the registry before they are attached.

use vstd::prelude::*;

use crate::Address;
use crate::ids::{lemma_dec_digits_wf, parse_dec_u64};
use crate::registry::{
    counters_wf, courses_wf, course_id_num, lemma_aux_wf_insert, lemma_course_id_num_none,
    lookup_course, CourseRegistry,
};
use crate::schema::{clone_string_vec, Error};
use crate::store::{Record, RecordV, StoreKey};

verus! {

/// First validation failure in a prerequisite list, scanning from `i`: a
/// prerequisite must not name the course itself and must name an existing
/// course.
pub open spec fn prereq_list_error(
    m: Map<StoreKey, RecordV>,
    course_id: Seq<char>,
    ids: Seq<Seq<char>>,
    i: int,
) -> Option<Error>
    decreases ids.len() - i,
{
    if i < 0 || i >= ids.len() {
        None
    } else if ids[i] == course_id {
        Some(Error::SelfPrerequisite)
    } else if lookup_course(m, ids[i]) is None {
        Some(Error::PrerequisiteCourseNotFound)
    } else {
        prereq_list_error(m, course_id, ids, i + 1)
    }
}

/// The error the prerequisite mutations report before touching the list,
/// if any; `require_nonempty` distinguishes adding from replacing.
pub open spec fn prereq_error(
    m: Map<StoreKey, RecordV>,
    caller: Address,
    course_id: Seq<char>,
    ids: Seq<Seq<char>>,
    caller_is_admin: bool,
    require_nonempty: bool,
) -> Option<Error> {
    match lookup_course(m, course_id) {
        None => Some(Error::CourseNotFound),
        Some(c) => if c.creator != caller && !caller_is_admin {
            Some(Error::Unauthorized)
        } else if require_nonempty && ids.len() == 0 {
            Some(Error::EmptyPrerequisiteList)
        } else {
            prereq_list_error(m, course_id, ids, 0)
        },
    }
}

/// Index of the first occurrence of `x` in `s` at or after `i`, or -1.
pub open spec fn first_index(s: Seq<Seq<char>>, x: Seq<char>, i: int) -> int
    decreases s.len() - i,
{
    if i < 0 || i >= s.len() {
        -1
    } else if s[i] == x {
        i
    } else {
        first_index(s, x, i + 1)
    }
}

impl CourseRegistry {
    /// Validates every entry of a prerequisite list against the registry.
    fn validate_prereq_list(&self, course_id: &String, prerequisites: &Vec<String>) -> (r: Option<
        Error,
    >)
        requires
            self.wf(),
        ensures
            r == prereq_list_error(self@, course_id@, prerequisites.deep_view(), 0),
    {
        let ghost ids = prerequisites.deep_view();
        let mut i: usize = 0;
        while i < prerequisites.len()
            invariant
                self.wf(),
                ids == prerequisites.deep_view(),
                0 <= i <= prerequisites.len(),
                prereq_list_error(self@, course_id@, ids, 0) == prereq_list_error(
                    self@,
                    course_id@,
                    ids,
                    i as int,
                ),
            decreases prerequisites.len() - i,
        {
            let p = &prerequisites[i];
            if p.eq(course_id) {
                return Some(Error::SelfPrerequisite);
            }
            let exists_course = match parse_dec_u64(p.as_str()) {
                Some(n) => {
                    proof {
                        lemma_dec_digits_wf(n as nat);
                    }
                    self.store_has(StoreKey::CourseKey(n))
                },
                None => {
                    proof {
                        lemma_course_id_num_none(ids[i as int]);
                    }
                    false
                },
            };
            if !exists_course {
                return Some(Error::PrerequisiteCourseNotFound);
            }
            i = i + 1;
        }
        None
    }

    /// Appends validated prerequisites to a course.  The caller must be
    /// the creator or an administrator; every entry must name an existing
    /// course other than the course itself.
    pub fn add_prerequisite(
        &mut self,
        caller: Address,
        course_id: &String,
        prerequisites: Vec<String>,
        caller_is_admin: bool,
    ) -> (r: Result<(), Error>)
        requires
            old(self).wf(),
        ensures
            final(self).wf(),
            match r {
                Err(e) => {
                    &&& Some(e) == prereq_error(
                        old(self)@,
                        caller,
                        course_id@,
                        prerequisites.deep_view(),
                        caller_is_admin,
                        true,
                    )
                    &&& *final(self) == *old(self)
                },
                Ok(()) => {
                    &&& prereq_error(
                        old(self)@,
                        caller,
                        course_id@,
                        prerequisites.deep_view(),
                        caller_is_admin,
                        true,
                    ) is None
                    &&& lookup_course(old(self)@, course_id@) matches Some(c)
                        && course_id_num(course_id@) matches Some(n) && final(self)@ == old(
                        self,
                    )@.insert(
                        StoreKey::CourseKey(n),
                        RecordV::CourseRec(
                            (crate::schema::CourseV {
                                prerequisites: c.prerequisites + prerequisites.deep_view(),
                                ..c
                            }),
                        ),
                    )
                },
            },
    {
        let n = match parse_dec_u64(course_id.as_str()) {
            Some(n) => n,
            None => {
                proof {
                    lemma_course_id_num_none(course_id@);
                }
                return Err(Error::CourseNotFound);
            },
        };
        proof {
            lemma_dec_digits_wf(n as nat);
        }
        let stored = match self.store_get(StoreKey::CourseKey(n)) {
            Some(Record::CourseRec(c)) => c,
            _ => {
                return Err(Error::CourseNotFound);
            },
        };
        if stored.creator.0 != caller.0 && !caller_is_admin {
            return Err(Error::Unauthorized);
        }
        if prerequisites.len() == 0 {
            return Err(Error::EmptyPrerequisiteList);
        }
        let mut course = stored.duplicate();
        match self.validate_prereq_list(course_id, &prerequisites) {
            Some(e) => {
                return Err(e);
            },
            None => {},
        }
        let ghost old_list = course.prerequisites.deep_view();
        let mut extra = clone_string_vec(&prerequisites);
        course.prerequisites.append(&mut extra);
        proof {
            assert(course.prerequisites.deep_view() =~= old_list + prerequisites.deep_view());
        }
        self.store_set(StoreKey::CourseKey(n), Record::CourseRec(course));
        proof {
            assert(counters_wf(self@));
            assert(courses_wf(self@));
            lemma_aux_wf_insert(old(self)@, StoreKey::CourseKey(n), self@[StoreKey::CourseKey(n)]);
        }
        Ok(())
    }

    /// Replaces the whole prerequisite list of a course, after the same
    /// validation as `add_prerequisite`; an empty list clears it.
    pub fn edit_prerequisite(
        &mut self,
        caller: Address,
        course_id: &String,
        new_prerequisites: Vec<String>,
        caller_is_admin: bool,
    ) -> (r: Result<(), Error>)
        requires
            old(self).wf(),
        ensures
            final(self).wf(),
            match r {
                Err(e) => {
                    &&& Some(e) == prereq_error(
                        old(self)@,
                        caller,
                        course_id@,
                        new_prerequisites.deep_view(),
                        caller_is_admin,
                        false,
                    )
                    &&& *final(self) == *old(self)
                },
                Ok(()) => {
                    &&& prereq_error(
                        old(self)@,
                        caller,
                        course_id@,
                        new_prerequisites.deep_view(),
                        caller_is_admin,
                        false,
                    ) is None
                    &&& lookup_course(old(self)@, course_id@) matches Some(c)
                        && course_id_num(course_id@) matches Some(n) && final(self)@ == old(
                        self,
                    )@.insert(
                        StoreKey::CourseKey(n),
                        RecordV::CourseRec(
                            (crate::schema::CourseV {
                                prerequisites: new_prerequisites.deep_view(),
                                ..c
                            }),
                        ),
                    )
                },
            },
    {
        let n = match parse_dec_u64(course_id.as_str()) {
            Some(n) => n,
            None => {
                proof {
                    lemma_course_id_num_none(course_id@);
                }
                return Err(Error::CourseNotFound);
            },
        };
        proof {
            lemma_dec_digits_wf(n as nat);
        }
        let stored = match self.store_get(StoreKey::CourseKey(n)) {
            Some(Record::CourseRec(c)) => c,
            _ => {
                return Err(Error::CourseNotFound);
            },
        };
        if stored.creator.0 != caller.0 && !caller_is_admin {
            return Err(Error::Unauthorized);
        }
        let mut course = stored.duplicate();
        match self.validate_prereq_list(course_id, &new_prerequisites) {
            Some(e) => {
                return Err(e);
            },
            None => {},
        }
        course.prerequisites = clone_string_vec(&new_prerequisites);
        self.store_set(StoreKey::CourseKey(n), Record::CourseRec(course));
        proof {
            assert(counters_wf(self@));
            assert(courses_wf(self@));
            lemma_aux_wf_insert(old(self)@, StoreKey::CourseKey(n), self@[StoreKey::CourseKey(n)]);
        }
        Ok(())
    }

    /// Removes the first occurrence of one prerequisite from a course.
    pub fn remove_prerequisite(
        &mut self,
        caller: Address,
        course_id: &String,
        prereq_course_id: &String,
    ) -> (r: Result<(), Error>)
        requires
            old(self).wf(),
        ensures
            final(self).wf(),
            match r {
                Err(e) => {
                    &&& Some(e) == remove_prereq_error(
                        old(self)@,
                        caller,
                        course_id@,
                        prereq_course_id@,
                    )
                    &&& *final(self) == *old(self)
                },
                Ok(()) => {
                    &&& remove_prereq_error(old(self)@, caller, course_id@, prereq_course_id@)
                        is None
                    &&& lookup_course(old(self)@, course_id@) matches Some(c)
                        && course_id_num(course_id@) matches Some(n) && final(self)@ == old(
                        self,
                    )@.insert(
                        StoreKey::CourseKey(n),
                        RecordV::CourseRec(
                            (crate::schema::CourseV {
                                prerequisites: c.prerequisites.remove(
                                    first_index(c.prerequisites, prereq_course_id@, 0),
                                ),
                                ..c
                            }),
                        ),
                    )
                },
            },
    {
        let n = match parse_dec_u64(course_id.as_str()) {
            Some(n) => n,
            None => {
                proof {
                    lemma_course_id_num_none(course_id@);
                }
                return Err(Error::CourseNotFound);
            },
        };
        proof {
            lemma_dec_digits_wf(n as nat);
        }
        let stored = match self.store_get(StoreKey::CourseKey(n)) {
            Some(Record::CourseRec(c)) => c,
            _ => {
                return Err(Error::CourseNotFound);
            },
        };
        if stored.creator.0 != caller.0 {
            return Err(Error::Unauthorized);
        }
        let mut course = stored.duplicate();
        let ghost list = course.prerequisites.deep_view();
        let mut idx: usize = 0;
        let mut found = false;
        while idx < course.prerequisites.len() && !found
            invariant
                list == course.prerequisites.deep_view(),
                0 <= idx <= course.prerequisites.len(),
                !found ==> first_index(list, prereq_course_id@, 0) == first_index(
                    list,
                    prereq_course_id@,
                    idx as int,
                ),
                found ==> first_index(list, prereq_course_id@, 0) == idx && idx
                    < course.prerequisites.len(),
            decreases course.prerequisites.len() - idx, 1int + (if found {
                0int
            } else {
                1int
            }),
        {
            if course.prerequisites[idx].eq(prereq_course_id) {
                found = true;
            } else {
                idx = idx + 1;
            }
        }
        if !found {
            proof {
                assert(first_index(list, prereq_course_id@, 0) == -1);
            }
            return Err(Error::PrerequisiteNotFound);
        }
        let ghost old_list = course.prerequisites.deep_view();
        course.prerequisites.remove(idx);
        proof {
            assert(course.prerequisites.deep_view() =~= old_list.remove(idx as int));
        }
        self.store_set(StoreKey::CourseKey(n), Record::CourseRec(course));
        proof {
            assert(counters_wf(self@));
            assert(courses_wf(self@));
            lemma_aux_wf_insert(old(self)@, StoreKey::CourseKey(n), self@[StoreKey::CourseKey(n)]);
        }
        Ok(())
    }

    /// The prerequisite list of a course, in order.
    pub fn get_prerequisites_by_course(&self, course_id: &String) -> (r: Result<Vec<String>, Error>)
        requires
            self.wf(),
        ensures
            match r {
                Ok(v) => lookup_course(self@, course_id@) matches Some(c) && v.deep_view()
                    == c.prerequisites,
                Err(e) => e == Error::CourseNotFound && lookup_course(self@, course_id@) is None,
            },
    {
        let n = match parse_dec_u64(course_id.as_str()) {
            Some(n) => n,
            None => {
                proof {
                    lemma_course_id_num_none(course_id@);
                }
                return Err(Error::CourseNotFound);
            },
        };
        proof {
            lemma_dec_digits_wf(n as nat);
        }
        match self.store_get(StoreKey::CourseKey(n)) {
            Some(Record::CourseRec(c)) => Ok(clone_string_vec(&c.prerequisites)),
            _ => Err(Error::CourseNotFound),
        }
    }
}

/// The error `remove_prerequisite` reports, if any.
pub open spec fn remove_prereq_error(
    m: Map<StoreKey, RecordV>,
    caller: Address,
    course_id: Seq<char>,
    prereq_course_id: Seq<char>,
) -> Option<Error> {
    match lookup_course(m, course_id) {
        None => Some(Error::CourseNotFound),
        Some(c) => if c.creator != caller {
            Some(Error::Unauthorized)
        } else if first_index(c.prerequisites, prereq_course_id, 0) == -1 {
            Some(Error::PrerequisiteNotFound)
        } else {
            None
        },
    }
}

} // verus!
