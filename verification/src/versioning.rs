//! Version and migration bookkeeping: the deployed version, an append-only
//! history, a compatibility rule over version strings (same major segment)
//! and a one-shot migration whose outcome is recorded explicitly.

use vstd::prelude::*;

use crate::Address;
use crate::registry::{
    counters_wf, courses_wf, categories_wf, goals_wf, lemma_categories_wf_insert, modules_wf,
    version_wf, CourseRegistry,
};
use crate::schema::{Error, MigrationStatus, VersionRecord, VersionRecordV, VERSION};
use crate::store::{KeyStore, Record, RecordV, StoreKey};

verus! {

/// The version record a store holds; before any migration the history is
/// just the deployed version and no migration outcome is recorded.
pub open spec fn spec_version_record(m: Map<StoreKey, RecordV>) -> VersionRecordV {
    if m.contains_key(StoreKey::VersionKey) {
        match m[StoreKey::VersionKey] {
            RecordV::VersionRec(v) => v,
            _ => (VersionRecordV { history: seq![VERSION@], status: MigrationStatus::Idle }),
        }
    } else {
        (VersionRecordV { history: seq![VERSION@], status: MigrationStatus::Idle })
    }
}

/// Index of the first `.` in a version string, or its length.
pub open spec fn major_len(s: Seq<char>, i: int) -> int
    decreases s.len() - i,
{
    if i < 0 || i >= s.len() {
        s.len() as int
    } else if s[i] == '.' {
        i
    } else {
        major_len(s, i + 1)
    }
}

/// The major segment of a version string: everything before the first `.`.
pub open spec fn major_seg(s: Seq<char>) -> Seq<char> {
    s.subrange(0, major_len(s, 0))
}

/// Two versions are compatible exactly when their major segments agree.
pub open spec fn version_compatible(from: Seq<char>, to: Seq<char>) -> bool {
    major_seg(from) == major_seg(to)
}

/// The words `get_migration_status` reports for each outcome.
pub open spec fn migration_status_chars(st: MigrationStatus) -> Seq<char> {
    match st {
        MigrationStatus::Idle => "none"@,
        MigrationStatus::Completed => "completed"@,
        MigrationStatus::Failed => "failed"@,
    }
}

/// What a migration call does to the version record, once the caller has
/// passed the authorization gate.
pub open spec fn migrated_record(rec: VersionRecordV, from: Seq<char>, to: Seq<char>) -> VersionRecordV {
    if version_compatible(from, to) {
        (VersionRecordV {
            history: rec.history.push(to),
            status: MigrationStatus::Completed,
        })
    } else {
        (VersionRecordV { history: rec.history, status: MigrationStatus::Failed })
    }
}

/// Computes the length of the major segment of a version string.
fn major_split(s: &String) -> (r: usize)
    ensures
        r == major_len(s@, 0),
        r <= s@.len(),
{
    let len = s.as_str().unicode_len();
    let mut i: usize = 0;
    while i < len
        invariant
            len == s@.len(),
            0 <= i <= len,
            major_len(s@, 0) == major_len(s@, i as int),
        decreases len - i,
    {
        let c = s.as_str().get_char(i);
        if c == '.' {
            return i;
        }
        i = i + 1;
    }
    i
}

/// Decides version compatibility: same major segment.
pub fn is_version_compatible_strings(from: &String, to: &String) -> (r: bool)
    ensures
        r == version_compatible(from@, to@),
{
    let l1 = major_split(from);
    let l2 = major_split(to);
    if l1 != l2 {
        proof {
            assert(major_seg(from@).len() != major_seg(to@).len());
        }
        return false;
    }
    let mut i: usize = 0;
    while i < l1
        invariant
            l1 == major_len(from@, 0) == major_len(to@, 0),
            l1 <= from@.len(),
            l1 <= to@.len(),
            0 <= i <= l1,
            forall|j: int| 0 <= j < i ==> from@[j] == to@[j],
        decreases l1 - i,
    {
        if from.as_str().get_char(i) != to.as_str().get_char(i) {
            proof {
                assert(major_seg(from@)[i as int] != major_seg(to@)[i as int]);
            }
            return false;
        }
        i = i + 1;
    }
    proof {
        assert(major_seg(from@) =~= major_seg(to@));
    }
    true
}

/// Reads the version record of a store, with the default when none is
/// stored yet.
pub(crate) fn read_version_record(store: &KeyStore) -> (r: VersionRecord)
    requires
        store.wf(),
    ensures
        r@ == spec_version_record(store@),
{
    match store.get(StoreKey::VersionKey) {
        Some(Record::VersionRec(v)) => v.duplicate(),
        _ => {
            let mut history: Vec<String> = Vec::new();
            history.push(String::from_str(VERSION));
            let r = VersionRecord { history, status: MigrationStatus::Idle };
            proof {
                assert(r@.history =~= seq![VERSION@]);
                assert(r@ == spec_version_record(store@));
            }
            r
        },
    }
}

impl CourseRegistry {
    /// The deployed contract version.
    pub fn get_contract_version(&self) -> (r: String)
        ensures
            r@ == VERSION@,
    {
        String::from_str(VERSION)
    }

    /// Every version deployed so far, oldest first.
    pub fn get_version_history(&self) -> (r: Vec<String>)
        requires
            self.wf(),
        ensures
            r.deep_view() == spec_version_record(self@).history,
    {
        let rec = read_version_record(self.store_ref());
        rec.history
    }

    /// Whether data written under `from_version` can be used under
    /// `to_version`: true exactly when the major segments agree.
    pub fn is_version_compatible(&self, from_version: &String, to_version: &String) -> (r: bool)
        ensures
            r == version_compatible(from_version@, to_version@),
    {
        is_version_compatible_strings(from_version, to_version)
    }

    /// Migrates course data between versions.  Only an administrator may
    /// migrate; a compatible pair appends the target version to the
    /// history and records completion, an incompatible pair records
    /// failure and reports `false`.
    pub fn migrate_course_data(
        &mut self,
        caller: Address,
        from_version: &String,
        to_version: &String,
        caller_is_admin: bool,
    ) -> (r: Result<bool, Error>)
        requires
            old(self).wf(),
        ensures
            final(self).wf(),
            match r {
                Err(e) => {
                    &&& e == Error::Unauthorized
                    &&& !caller_is_admin
                    &&& *final(self) == *old(self)
                },
                Ok(ok) => {
                    &&& caller_is_admin
                    &&& ok == version_compatible(from_version@, to_version@)
                    &&& final(self)@ == old(self)@.insert(
                        StoreKey::VersionKey,
                        RecordV::VersionRec(
                            migrated_record(
                                spec_version_record(old(self)@),
                                from_version@,
                                to_version@,
                            ),
                        ),
                    )
                },
            },
    {
        if !caller_is_admin {
            return Err(Error::Unauthorized);
        }
        let mut rec = read_version_record(self.store_ref());
        let ghost orig = rec@;
        let compatible = is_version_compatible_strings(from_version, to_version);
        if compatible {
            let ghost old_h = rec.history.deep_view();
            rec.history.push(to_version.clone());
            rec.status = MigrationStatus::Completed;
            proof {
                assert(rec.history.deep_view() =~= old_h.push(to_version@));
                assert(rec@ == migrated_record(orig, from_version@, to_version@));
            }
        } else {
            rec.status = MigrationStatus::Failed;
            proof {
                assert(rec@ == migrated_record(orig, from_version@, to_version@));
            }
        }
        self.store_set(StoreKey::VersionKey, Record::VersionRec(rec));
        proof {
            assert(counters_wf(self@));
            assert(courses_wf(self@));
            assert(modules_wf(self@));
            assert(goals_wf(self@));
            assert(categories_wf(self@)) by {
                lemma_categories_wf_insert(
                    old(self)@,
                    StoreKey::VersionKey,
                    self@[StoreKey::VersionKey],
                );
            }
            assert(version_wf(self@));
        }
        Ok(compatible)
    }

    /// The outcome of the last migration, as a word.
    pub fn get_migration_status(&self) -> (r: String)
        requires
            self.wf(),
        ensures
            r@ == migration_status_chars(spec_version_record(self@).status),
    {
        let rec = read_version_record(self.store_ref());
        match rec.status {
            MigrationStatus::Idle => String::from_str("none"),
            MigrationStatus::Completed => String::from_str("completed"),
            MigrationStatus::Failed => String::from_str("failed"),
        }
    }
}

} // verus!
