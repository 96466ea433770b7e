//! The keyed record store: a typed wrapper over a raw single-key
//! `get`/`has`/`set`/`remove` substrate.
//!
//! No partial-key queries, no range scans, no iteration are offered; every
//! higher component persists through these four operations alone.  The
//! abstract value of a store is a `Map<StoreKey, Record>` and every
//! operation's contract is stated over that map.

use vstd::prelude::*;

use crate::Address;
use crate::schema::{
    Course, CourseCategory, CourseGoal, CourseModule, RateLimitEntry, VersionRecord,
};
use crate::access::AccessConfig;
use crate::profile::UserProfile;

verus! {

/// Structured key: a domain tag plus scalar components.
#[derive(Clone, Copy, Debug, PartialEq, Eq, Structural)]
pub enum StoreKey {
    /// Counter backing course identifier allocation.
    CourseCounter,
    /// Counter backing goal identifier allocation.
    GoalCounter,
    /// Counter backing category identifier allocation.
    CategoryCounter,
    /// A course, by its numeric identifier.
    CourseKey(u64),
    /// Marker that a module occupies (course, position).
    PositionTaken(u64, u32),
    /// A module, by (course, position, ledger sequence at insertion).
    ModuleKey(u64, u32, u32),
    /// A goal, by (course, goal number).
    GoalKey(u64, u64),
    /// A category, by its numeric identifier.
    CategoryKey(u64),
    /// Rate-limit counter of one creator identity.
    RateLimitKey(Address),
    /// On-chain profile of one user identity.
    ProfileKey(Address),
    /// Profile reference kept by the access-grant contract.
    AccessProfileKey(Address),
    /// Owner and peer addresses, set at initialization.
    ConfigKey,
    /// Version history and migration status.
    VersionKey,
}

/// A record as it sits in the store.
pub enum Record {
    Counter(u64),
    CourseRec(Course),
    /// Position-taken sentinel; carries no data.
    Marker,
    ModuleRec(CourseModule),
    GoalRec(CourseGoal),
    CategoryRec(CourseCategory),
    RateLimitRec(RateLimitEntry),
    ProfileRec(UserProfile),
    AccessProfileRec(crate::access::UserProfile),
    ConfigRec(AccessConfig),
    VersionRec(VersionRecord),
}

/// Mathematical image of a `Record`.
pub enum RecordV {
    Counter(u64),
    CourseRec(crate::schema::CourseV),
    Marker,
    ModuleRec(crate::schema::CourseModuleV),
    GoalRec(crate::schema::CourseGoalV),
    CategoryRec(crate::schema::CourseCategoryV),
    RateLimitRec(RateLimitEntry),
    ProfileRec(crate::profile::UserProfileV),
    AccessProfileRec(crate::access::UserProfileV),
    ConfigRec(AccessConfig),
    VersionRec(crate::schema::VersionRecordV),
}

impl View for Record {
    type V = RecordV;

    open spec fn view(&self) -> RecordV {
        match self {
            Record::Counter(n) => RecordV::Counter(*n),
            Record::CourseRec(c) => RecordV::CourseRec(c@),
            Record::Marker => RecordV::Marker,
            Record::ModuleRec(m) => RecordV::ModuleRec(m@),
            Record::GoalRec(g) => RecordV::GoalRec(g@),
            Record::CategoryRec(c) => RecordV::CategoryRec(c@),
            Record::RateLimitRec(r) => RecordV::RateLimitRec(*r),
            Record::ProfileRec(p) => RecordV::ProfileRec(p@),
            Record::AccessProfileRec(p) => RecordV::AccessProfileRec(p@),
            Record::ConfigRec(c) => RecordV::ConfigRec(*c),
            Record::VersionRec(v) => RecordV::VersionRec(v@),
        }
    }
}

/// One key/record pair of the store.
pub struct StoreEntry {
    pub key: StoreKey,
    pub rec: Record,
}

/// Map described by a sequence of entries, later entries taking precedence.
pub open spec fn entries_map(s: Seq<StoreEntry>) -> Map<StoreKey, RecordV>
    decreases s.len(),
{
    if s.len() == 0 {
        Map::empty()
    } else {
        entries_map(s.drop_last()).insert(s.last().key, s.last().rec@)
    }
}

/// No key occurs twice.
pub open spec fn distinct_keys(s: Seq<StoreEntry>) -> bool {
    forall|i: int, j: int| 0 <= i < j < s.len() ==> s[i].key != s[j].key
}

/// A key is in the map exactly when some entry carries it.
pub proof fn lemma_entries_map_domain(s: Seq<StoreEntry>, k: StoreKey)
    ensures
        entries_map(s).contains_key(k) <==> (exists|i: int| 0 <= i < s.len() && s[i].key == k),
    decreases s.len(),
{
    if s.len() > 0 {
        lemma_entries_map_domain(s.drop_last(), k);
        if s.last().key == k {
            assert(s[s.len() - 1].key == k);
        } else {
            if entries_map(s).contains_key(k) {
                let i = choose|i: int| 0 <= i < s.drop_last().len() && s.drop_last()[i].key == k;
                assert(s[i].key == k);
            }
            if exists|i: int| 0 <= i < s.len() && s[i].key == k {
                let i = choose|i: int| 0 <= i < s.len() && s[i].key == k;
                assert(s.drop_last()[i].key == k);
            }
        }
    }
}

/// With distinct keys, the map sends each entry's key to its record.
pub proof fn lemma_entries_map_at(s: Seq<StoreEntry>, i: int)
    requires
        distinct_keys(s),
        0 <= i < s.len(),
    ensures
        entries_map(s).contains_key(s[i].key),
        entries_map(s)[s[i].key] == s[i].rec@,
    decreases s.len(),
{
    if i == s.len() - 1 {
    } else {
        assert(distinct_keys(s.drop_last()));
        lemma_entries_map_at(s.drop_last(), i);
        assert(s[i].key != s.last().key);
    }
}

/// The keyed record store.
pub struct KeyStore {
    entries: Vec<StoreEntry>,
}

impl View for KeyStore {
    type V = Map<StoreKey, RecordV>;

    closed spec fn view(&self) -> Map<StoreKey, RecordV> {
        entries_map(self.entries@)
    }
}

impl KeyStore {
    /// Internal invariant: each key is stored at most once.
    pub closed spec fn wf(&self) -> bool {
        distinct_keys(self.entries@)
    }

    /// An empty store.
    pub fn new() -> (r: KeyStore)
        ensures
            r.wf(),
            r@ == Map::<StoreKey, RecordV>::empty(),
    {
        KeyStore { entries: Vec::new() }
    }

    /// Index of the entry carrying `k`, if any.
    fn find(&self, k: StoreKey) -> (r: Option<usize>)
        requires
            self.wf(),
        ensures
            match r {
                Some(i) => i < self.entries@.len() && self.entries@[i as int].key == k,
                None => forall|i: int| 0 <= i < self.entries@.len() ==> self.entries@[i].key != k,
            },
    {
        let mut i: usize = 0;
        while i < self.entries.len()
            invariant
                0 <= i <= self.entries@.len(),
                forall|j: int| 0 <= j < i ==> self.entries@[j].key != k,
            decreases self.entries@.len() - i,
        {
            if self.entries[i].key == k {
                return Some(i);
            }
            i = i + 1;
        }
        None
    }

    /// Whether a record is stored under `k`.
    pub fn has(&self, k: StoreKey) -> (r: bool)
        requires
            self.wf(),
        ensures
            r == self@.contains_key(k),
    {
        let r = self.find(k);
        proof {
            lemma_entries_map_domain(self.entries@, k);
        }
        match r {
            Some(_) => true,
            None => false,
        }
    }

    /// The record stored under `k`, if any.
    pub fn get(&self, k: StoreKey) -> (r: Option<&Record>)
        requires
            self.wf(),
        ensures
            match r {
                Some(rec) => self@.contains_key(k) && rec@ == self@[k],
                None => !self@.contains_key(k),
            },
    {
        proof {
            lemma_entries_map_domain(self.entries@, k);
        }
        match self.find(k) {
            Some(i) => {
                proof {
                    lemma_entries_map_at(self.entries@, i as int);
                }
                Some(&self.entries[i].rec)
            },
            None => None,
        }
    }

    /// Stores `rec` under `k`, replacing any record already there.
    pub fn set(&mut self, k: StoreKey, rec: Record)
        requires
            old(self).wf(),
        ensures
            final(self).wf(),
            final(self)@ == old(self)@.insert(k, rec@),
    {
        let ghost old_seq = self.entries@;
        match self.find(k) {
            Some(i) => {
                self.entries.remove(i);
                proof {
                    lemma_entries_map_remove(old_seq, i as int);
                }
            },
            None => {},
        }
        let ghost mid_seq = self.entries@;
        proof {
            lemma_entries_map_domain(mid_seq, k);
            assert(forall|j: int| 0 <= j < mid_seq.len() ==> mid_seq[j].key != k);
        }
        self.entries.push(StoreEntry { key: k, rec });
        proof {
            assert(self.entries@.drop_last() =~= mid_seq);
            assert(distinct_keys(self.entries@));
            assert(entries_map(self.entries@) == entries_map(mid_seq).insert(k, rec@));
            assert(entries_map(self.entries@) =~= entries_map(old_seq).insert(k, rec@));
        }
    }

    /// Removes the record under `k`, if any.
    pub fn remove(&mut self, k: StoreKey)
        requires
            old(self).wf(),
        ensures
            final(self).wf(),
            final(self)@ == old(self)@.remove(k),
    {
        let ghost old_seq = self.entries@;
        match self.find(k) {
            Some(i) => {
                self.entries.remove(i);
                proof {
                    lemma_entries_map_remove(old_seq, i as int);
                }
            },
            None => {
                proof {
                    lemma_entries_map_domain(old_seq, k);
                    assert(entries_map(old_seq) =~= entries_map(old_seq).remove(k));
                }
            },
        }
    }
}

/// Removing an entry removes exactly its key from the described map and
/// keeps the remaining keys distinct.
proof fn lemma_entries_map_remove(s: Seq<StoreEntry>, i: int)
    requires
        distinct_keys(s),
        0 <= i < s.len(),
    ensures
        distinct_keys(s.remove(i)),
        forall|j: int| 0 <= j < s.remove(i).len() ==> (#[trigger] s.remove(i)[j].key) != s[i].key,
        entries_map(s.remove(i)) == entries_map(s).remove(s[i].key),
{
    let t = s.remove(i);
    let k = s[i].key;
    assert forall|j: int| 0 <= j < t.len() implies (#[trigger] t[j].key) != k by {
        if j < i {
            assert(t[j] == s[j]);
        } else {
            assert(t[j] == s[j + 1]);
        }
    }
    assert forall|k2: StoreKey|
        #![trigger entries_map(t).contains_key(k2)]
        #![trigger entries_map(s).contains_key(k2)]
        true implies {
        &&& entries_map(t).contains_key(k2) <==> (k2 != k && entries_map(s).contains_key(k2))
        &&& entries_map(t).contains_key(k2) ==> entries_map(t)[k2] == entries_map(s)[k2]
    } by {
        lemma_entries_map_domain(s, k2);
        lemma_entries_map_domain(t, k2);
        if entries_map(t).contains_key(k2) {
            let j = choose|j: int| 0 <= j < t.len() && t[j].key == k2;
            lemma_entries_map_at(t, j);
            if j < i {
                assert(t[j] == s[j]);
                lemma_entries_map_at(s, j);
            } else {
                assert(t[j] == s[j + 1]);
                lemma_entries_map_at(s, j + 1);
            }
        } else if k2 != k && entries_map(s).contains_key(k2) {
            let i2 = choose|i2: int| 0 <= i2 < s.len() && s[i2].key == k2;
            if i2 < i {
                assert(t[i2] == s[i2]);
            } else {
                assert(t[i2 - 1] == s[i2]);
            }
        }
    }
    assert(entries_map(t) =~= entries_map(s).remove(k));
}

} // verus!
