//! Course categories: sequentially numbered records with unique names,
//! listed by walking the identifier range of the allocator.

use vstd::prelude::*;

use crate::Address;
use crate::registry::{
    category_at, category_name, counters_wf, courses_wf, categories_wf, goals_wf, modules_wf,
    spec_category_counter, version_wf, CourseRegistry,
};
use crate::schema::{CourseCategory, CourseCategoryV, Error};
use crate::store::{Record, RecordV, StoreKey};

verus! {

/// Whether some stored category already carries `name`.
pub open spec fn category_name_taken(m: Map<StoreKey, RecordV>, name: Seq<char>) -> bool {
    exists|i: u64| #[trigger] category_name(m, i) == Some(name)
}

/// The error `create_course_category` reports, if any.
pub open spec fn create_category_error(m: Map<StoreKey, RecordV>, name: Seq<char>) -> Option<
    Error,
> {
    if name.len() == 0 {
        Some(Error::EmptyCategoryName)
    } else if category_name_taken(m, name) {
        Some(Error::DuplicateCategoryName)
    } else {
        None
    }
}

/// The category a caller-supplied identifier denotes, if any.
pub open spec fn lookup_category(m: Map<StoreKey, RecordV>, id: u128) -> Option<CourseCategoryV> {
    if id <= u64::MAX {
        category_at(m, id as u64)
    } else {
        None
    }
}

/// The categories the listing returns: every stored category from `i`
/// through the allocation counter, in creation order.
pub open spec fn category_scan(m: Map<StoreKey, RecordV>, i: int) -> Seq<CourseCategoryV>
    decreases spec_category_counter(m) + 1 - i,
{
    if i < 1 || i > spec_category_counter(m) as int {
        Seq::empty()
    } else {
        match category_at(m, i as u64) {
            Some(c) => seq![c] + category_scan(m, i + 1),
            None => category_scan(m, i + 1),
        }
    }
}

impl CourseRegistry {
    /// Creates a category with a unique name and returns its identifier,
    /// allocated sequentially from 1.
    pub fn create_course_category(
        &mut self,
        caller: Address,
        name: String,
        description: Option<String>,
    ) -> (r: Result<u128, Error>)
        requires
            old(self).wf(),
            spec_category_counter(old(self)@) < u64::MAX,
        ensures
            final(self).wf(),
            match r {
                Err(e) => {
                    &&& Some(e) == create_category_error(old(self)@, name@)
                    &&& *final(self) == *old(self)
                },
                Ok(id) => {
                    &&& create_category_error(old(self)@, name@) is None
                    &&& id == spec_category_counter(old(self)@) + 1
                    &&& final(self)@ == old(self)@.insert(
                        StoreKey::CategoryCounter,
                        RecordV::Counter((spec_category_counter(old(self)@) + 1) as u64),
                    ).insert(
                        StoreKey::CategoryKey((spec_category_counter(old(self)@) + 1) as u64),
                        RecordV::CategoryRec(
                            (CourseCategoryV {
                                id: id,
                                name: name@,
                                description: description.deep_view(),
                            }),
                        ),
                    )
                },
            },
    {
        if name.as_str().unicode_len() == 0 {
            return Err(Error::EmptyCategoryName);
        }
        let cur = match self.store_get(StoreKey::CategoryCounter) {
            Some(Record::Counter(v)) => *v,
            _ => 0,
        };

        // No scan-free uniqueness probe exists, so walk the identifier
        // range comparing names.
        let mut i: u64 = 0;
        while i < cur
            invariant
                self.wf(),
                *self == *old(self),
                name@.len() > 0,
                spec_category_counter(self@) == cur,
                0 <= i <= cur,
                forall|j: u64| 1 <= j <= i ==> #[trigger] category_name(self@, j) != Some(name@),
            decreases cur - i,
        {
            match self.store_get(StoreKey::CategoryKey(i + 1)) {
                Some(Record::CategoryRec(c)) => {
                    if c.name.eq(&name) {
                        proof {
                            assert(category_name(self@, (i + 1) as u64) == Some(name@));
                        }
                        return Err(Error::DuplicateCategoryName);
                    }
                },
                _ => {},
            }
            i = i + 1;
        }
        proof {
            assert(!category_name_taken(self@, name@)) by {
                if category_name_taken(self@, name@) {
                    let j = choose|j: u64| #[trigger] category_name(self@, j) == Some(name@);
                    assert(self@.contains_key(StoreKey::CategoryKey(j)));
                    assert(1 <= j <= cur);
                }
            }
        }
        let new_num = cur + 1;
        let category = CourseCategory { id: new_num as u128, name, description };
        self.store_set(StoreKey::CategoryCounter, Record::Counter(new_num));
        let ghost m1 = self@;
        self.store_set(StoreKey::CategoryKey(new_num), Record::CategoryRec(category.duplicate()));
        proof {
            assert(counters_wf(self@));
            assert(courses_wf(self@));
            assert(modules_wf(self@));
            assert(goals_wf(self@));
            assert(categories_wf(self@)) by {
                assert(spec_category_counter(self@) == new_num);
                assert(forall|i2: u64|
                    #[trigger] self@.contains_key(StoreKey::CategoryKey(i2)) ==> old(
                        self,
                    )@.contains_key(StoreKey::CategoryKey(i2)) || i2 == new_num);
                assert forall|i2: u64, j2: u64|
                    #![trigger category_name(self@, i2), category_name(self@, j2)]
                    (i2 != j2 && category_name(self@, i2) is Some) implies category_name(self@, i2)
                    != category_name(self@, j2) by {
                    if i2 != new_num && j2 != new_num {
                        assert(category_name(self@, i2) == category_name(old(self)@, i2));
                        assert(category_name(self@, j2) == category_name(old(self)@, j2));
                    } else if i2 == new_num {
                        assert(category_name(self@, i2) == Some(category@.name));
                        assert(category_name(self@, j2) == category_name(old(self)@, j2));
                    } else {
                        assert(category_name(self@, j2) == Some(category@.name));
                        assert(category_name(self@, i2) == category_name(old(self)@, i2));
                    }
                }
            }
            assert(version_wf(self@));
        }
        Ok(new_num as u128)
    }

    /// Retrieves a category by its identifier; absent identifiers give
    /// `None` rather than an error.
    pub fn get_course_category(&self, category_id: u128) -> (r: Option<CourseCategory>)
        requires
            self.wf(),
        ensures
            r.deep_view() == lookup_category(self@, category_id),
    {
        if category_id > u64::MAX as u128 {
            return None;
        }
        match self.store_get(StoreKey::CategoryKey(category_id as u64)) {
            Some(Record::CategoryRec(c)) => Some(c.duplicate()),
            _ => None,
        }
    }

    /// Lists every category in creation order.
    pub fn list_categories(&self) -> (r: Vec<CourseCategory>)
        requires
            self.wf(),
        ensures
            r.deep_view() == category_scan(self@, 1),
    {
        let cur = match self.store_get(StoreKey::CategoryCounter) {
            Some(Record::Counter(v)) => *v,
            _ => 0,
        };
        let mut results: Vec<CourseCategory> = Vec::new();
        let mut i: u64 = 0;
        while i < cur
            invariant
                self.wf(),
                spec_category_counter(self@) == cur,
                0 <= i <= cur,
                category_scan(self@, 1) == results.deep_view() + category_scan(
                    self@,
                    i as int + 1,
                ),
            decreases cur - i,
        {
            let ghost old_dv = results.deep_view();
            match self.store_get(StoreKey::CategoryKey(i + 1)) {
                Some(Record::CategoryRec(c)) => {
                    let dup = c.duplicate();
                    proof {
                        assert(category_scan(self@, i as int + 1) == seq![dup@] + category_scan(
                            self@,
                            i as int + 2,
                        ));
                    }
                    results.push(dup);
                    proof {
                        assert(results.deep_view() =~= old_dv.push(dup@));
                        assert(old_dv.push(dup@) + category_scan(self@, i as int + 2)
                            =~= old_dv + (seq![dup@] + category_scan(self@, i as int + 2)));
                    }
                },
                _ => {
                    proof {
                        assert(category_scan(self@, i as int + 1) == category_scan(
                            self@,
                            i as int + 2,
                        ));
                    }
                },
            }
            i = i + 1;
        }
        proof {
            assert(category_scan(self@, i as int + 1) =~= Seq::<CourseCategoryV>::empty());
            assert(category_scan(self@, 1) =~= results.deep_view());
        }
        results
    }
}

} // verus!
