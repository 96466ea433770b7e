//! Position-keyed module storage.
//!
//! A module is stored under (course, position, ledger sequence) and a
//! parallel position-taken marker enforces that at most one module is ever
//! inserted at a given (course, position) pair, without any scan.  Listing
//! reconstructs module identifiers by probing a bounded range of candidate
//! sequence numbers per occupied position.

use vstd::prelude::*;

use crate::Address;
use crate::ids::{
    dec_digits, dec_val, digit_val, lemma_dec_digits_wf, module_id_chars, module_prefix,
    parse_dec_u64, u64_to_dec_string,
};
use crate::registry::{
    counters_wf, courses_wf, categories_wf, course_id_num, goals_wf, lookup_course, modules_wf,
    version_wf, CourseRegistry,
};
use crate::schema::{
    CourseModule, CourseModuleV, Error, MAX_COURSE_ID_LEN, MAX_EMPTY_CHECKS, MAX_LOOP_GUARD,
    MAX_MODULE_POSITION, MODULE_SEQ_PROBE_LIMIT,
};
use crate::store::{Record, RecordV, StoreKey};

verus! {

/// Whether the marker for (course, position) is set, `id` given as the
/// course identifier string.
pub open spec fn position_taken(m: Map<StoreKey, RecordV>, id: Seq<char>, position: u32) -> bool {
    course_id_num(id) matches Some(n) && m.contains_key(StoreKey::PositionTaken(n, position))
}

/// The error `add_module` reports for these arguments, if any; the order
/// encodes the precedence of the checks.
pub open spec fn add_module_error(
    m: Map<StoreKey, RecordV>,
    caller: Address,
    id: Seq<char>,
    position: u32,
    content_hash: Seq<char>,
    caller_is_admin: bool,
) -> Option<Error> {
    if id.len() == 0 {
        Some(Error::EmptyCourseId)
    } else if content_hash.len() == 0 {
        Some(Error::ContentHashRequired)
    } else if id.len() > MAX_COURSE_ID_LEN {
        Some(Error::EmptyCourseId)
    } else if position > MAX_MODULE_POSITION {
        Some(Error::InvalidModulePosition)
    } else {
        match lookup_course(m, id) {
            None => Some(Error::CourseIdNotExist),
            Some(c) => if c.creator != caller && !caller_is_admin {
                Some(Error::Unauthorized)
            } else if position_taken(m, id, position) {
                Some(Error::DuplicateModulePosition)
            } else {
                None
            },
        }
    }
}

impl CourseRegistry {
    /// Adds a module to a course at a position.  The caller must be the
    /// course's creator or an administrator (the identity oracle's verdict
    /// is handed in as `caller_is_admin`).  At most one module is ever
    /// accepted per (course, position): a marker record rejects the second
    /// insertion whatever its content.  The module's identifier embeds the
    /// ledger sequence number current at insertion.
    pub fn add_module(
        &mut self,
        caller: Address,
        course_id: &String,
        position: u32,
        content_hash: String,
        caller_is_admin: bool,
        ledger_seq: u32,
        now: u64,
    ) -> (r: Result<CourseModule, Error>)
        requires
            old(self).wf(),
        ensures
            final(self).wf(),
            match r {
                Err(e) => {
                    &&& Some(e) == add_module_error(
                        old(self)@,
                        caller,
                        course_id@,
                        position,
                        content_hash@,
                        caller_is_admin,
                    )
                    &&& *final(self) == *old(self)
                },
                Ok(md) => {
                    &&& add_module_error(
                        old(self)@,
                        caller,
                        course_id@,
                        position,
                        content_hash@,
                        caller_is_admin,
                    ) is None
                    &&& md@.course_id == course_id@
                    &&& md@.position == position
                    &&& md@.content_hash == content_hash@
                    &&& md@.created_at == now
                    &&& course_id_num(course_id@) matches Some(n) && md@.id == module_id_chars(
                        n as nat,
                        position as nat,
                        ledger_seq as nat,
                    ) && final(self)@ == old(self)@.insert(
                        StoreKey::ModuleKey(n, position, ledger_seq),
                        RecordV::ModuleRec(md@),
                    ).insert(StoreKey::PositionTaken(n, position), RecordV::Marker)
                },
            },
    {
        let id_len = course_id.as_str().unicode_len();
        if id_len == 0 {
            return Err(Error::EmptyCourseId);
        }
        if content_hash.as_str().unicode_len() == 0 {
            return Err(Error::ContentHashRequired);
        }
        if id_len > MAX_COURSE_ID_LEN {
            return Err(Error::EmptyCourseId);
        }
        if position > MAX_MODULE_POSITION {
            return Err(Error::InvalidModulePosition);
        }
        let n = match parse_dec_u64(course_id.as_str()) {
            Some(n) => n,
            None => {
                proof {
                    crate::registry::lemma_course_id_num_none(course_id@);
                }
                return Err(Error::CourseIdNotExist);
            },
        };
        proof {
            lemma_dec_digits_wf(n as nat);
            assert(course_id_num(course_id@) == Some(n));
        }
        let course = match self.store_get(StoreKey::CourseKey(n)) {
            Some(Record::CourseRec(c)) => c,
            _ => {
                return Err(Error::CourseIdNotExist);
            },
        };
        if course.creator.0 != caller.0 && !caller_is_admin {
            return Err(Error::Unauthorized);
        }
        if self.store_has(StoreKey::PositionTaken(n, position)) {
            return Err(Error::DuplicateModulePosition);
        }
        let module_id = build_module_id(course_id, n, position, ledger_seq);
        let module = CourseModule {
            id: module_id,
            course_id: course_id.clone(),
            position,
            content_hash,
            created_at: now,
        };
        self.store_set(
            StoreKey::ModuleKey(n, position, ledger_seq),
            Record::ModuleRec(module.duplicate()),
        );
        self.store_set(StoreKey::PositionTaken(n, position), Record::Marker);
        proof {
            assert(counters_wf(self@));
            assert(courses_wf(self@));
            assert(modules_wf(self@)) by {
                assert(forall|c: u64, p: u32, q: u32|
                    #[trigger] self@.contains_key(StoreKey::ModuleKey(c, p, q)) ==> old(
                        self,
                    )@.contains_key(StoreKey::ModuleKey(c, p, q)) || (c == n && p == position && q
                        == ledger_seq));
            }
            assert(goals_wf(self@));
            assert(categories_wf(self@)) by {
                let m0 = old(self)@;
                let m1 = m0.insert(
                    StoreKey::ModuleKey(n, position, ledger_seq),
                    RecordV::ModuleRec(module@),
                );
                crate::registry::lemma_categories_wf_insert(
                    m0,
                    StoreKey::ModuleKey(n, position, ledger_seq),
                    RecordV::ModuleRec(module@),
                );
                crate::registry::lemma_categories_wf_insert(
                    m1,
                    StoreKey::PositionTaken(n, position),
                    RecordV::Marker,
                );
            }
            assert(version_wf(self@));
        }
        Ok(module)
    }
}

/// The positions the module listing walks and finds marked, starting at
/// `p` with `streak` consecutive unmarked positions already seen.
pub open spec fn position_scan(m: Map<StoreKey, RecordV>, c: u64, p: int, streak: int) -> Seq<u32>
    decreases MAX_LOOP_GUARD + 1 - p,
{
    if p < 0 || p > MAX_LOOP_GUARD as int || streak > MAX_EMPTY_CHECKS as int {
        Seq::empty()
    } else if m.contains_key(StoreKey::PositionTaken(c, p as u32)) {
        seq![p as u32] + position_scan(m, c, p + 1, 0)
    } else {
        position_scan(m, c, p + 1, streak + 1)
    }
}

/// The smallest probed ledger sequence number under which a module of
/// (course `c`, position `p`) is stored, probing upward from `q`.
pub open spec fn find_module_seq(m: Map<StoreKey, RecordV>, c: u64, p: u32, q: int) -> Option<u32>
    decreases MODULE_SEQ_PROBE_LIMIT - q,
{
    if q < 0 || q >= MODULE_SEQ_PROBE_LIMIT as int {
        None
    } else if m.contains_key(StoreKey::ModuleKey(c, p, q as u32)) {
        Some(q as u32)
    } else {
        find_module_seq(m, c, p, q + 1)
    }
}

/// The module record the probe reconstructs for position `p`; meaningful
/// only when the probe succeeds.
pub open spec fn found_module(m: Map<StoreKey, RecordV>, c: u64, p: u32) -> CourseModuleV {
    match find_module_seq(m, c, p, 0) {
        Some(q) => match m[StoreKey::ModuleKey(c, p, q)] {
            RecordV::ModuleRec(mv) => mv,
            _ => arbitrary(),
        },
        None => arbitrary(),
    }
}

/// The modules the listing returns for course `c`: one per marked position
/// whose probe finds a module, in increasing position order.  A module
/// whose ledger sequence number lies outside the probed range is omitted
/// even though it is retrievable by exact key.
pub open spec fn listed_modules(m: Map<StoreKey, RecordV>, c: u64) -> Seq<CourseModuleV> {
    position_scan(m, c, 0, 0).filter(|p: u32| find_module_seq(m, c, p, 0) is Some).map_values(
        |p: u32| found_module(m, c, p),
    )
}

/// The error `list_modules` reports, if any.
pub open spec fn list_modules_error(m: Map<StoreKey, RecordV>, id: Seq<char>) -> Option<Error> {
    if id.len() == 0 {
        Some(Error::EmptyCourseId)
    } else if lookup_course(m, id) is None {
        Some(Error::CourseIdNotExist)
    } else {
        None
    }
}

/// Appending one element to a filtered sequence's source either appends it
/// to the image or leaves the image unchanged.
proof fn lemma_filter_push<A>(s: Seq<A>, pred: spec_fn(A) -> bool, x: A)
    ensures
        pred(x) ==> s.push(x).filter(pred) == s.filter(pred).push(x),
        !pred(x) ==> s.push(x).filter(pred) == s.filter(pred),
{
    reveal(Seq::filter);
    assert(s.push(x).drop_last() =~= s);
    assert(s.push(x).last() == x);
    if pred(x) {
        assert(s.push(x).filter(pred) =~= s.filter(pred).push(x));
    }
}

impl CourseRegistry {
    /// Lists the modules of a course by reconstruction: walks positions
    /// from 0 (abandoning after `MAX_EMPTY_CHECKS` consecutive unmarked
    /// positions, never past `MAX_LOOP_GUARD`) and, for each marked
    /// position, probes candidate ledger sequence numbers below
    /// `MODULE_SEQ_PROBE_LIMIT`, accepting the first stored module.
    pub fn list_modules(&self, course_id: &String) -> (r: Result<Vec<CourseModule>, Error>)
        requires
            self.wf(),
        ensures
            match r {
                Err(e) => Some(e) == list_modules_error(self@, course_id@),
                Ok(v) => {
                    &&& list_modules_error(self@, course_id@) is None
                    &&& course_id_num(course_id@) matches Some(n) && v.deep_view()
                        == listed_modules(self@, n)
                },
            },
    {
        if course_id.as_str().unicode_len() == 0 {
            return Err(Error::EmptyCourseId);
        }
        let n = match parse_dec_u64(course_id.as_str()) {
            Some(n) => n,
            None => {
                proof {
                    crate::registry::lemma_course_id_num_none(course_id@);
                }
                return Err(Error::CourseIdNotExist);
            },
        };
        proof {
            lemma_dec_digits_wf(n as nat);
            assert(course_id_num(course_id@) == Some(n));
        }
        if !self.store_has(StoreKey::CourseKey(n)) {
            return Err(Error::CourseIdNotExist);
        }

        let ghost m = self@;
        let ghost pred = |p: u32| find_module_seq(m, n, p, 0) is Some;
        let mut modules: Vec<CourseModule> = Vec::new();
        let mut position: u32 = 0;
        let mut empty_streak: u32 = 0;
        let ghost processed: Seq<u32> = Seq::empty();

        loop
            invariant
                self.wf(),
                m == self@,
                pred == (|p: u32| find_module_seq(m, n, p, 0) is Some),
                course_id@ == dec_digits(n as nat),
                course_id_num(course_id@) == Some(n),
                list_modules_error(m, course_id@) is None,
                position <= MAX_LOOP_GUARD + 1,
                empty_streak <= MAX_EMPTY_CHECKS + 1,
                position_scan(m, n, 0, 0) == processed + position_scan(
                    m,
                    n,
                    position as int,
                    empty_streak as int,
                ),
                modules.deep_view() == processed.filter(pred).map_values(
                    |p: u32| found_module(m, n, p),
                ),
            decreases MAX_LOOP_GUARD + 1 - position,
        {
            if position > MAX_LOOP_GUARD || empty_streak > MAX_EMPTY_CHECKS {
                proof {
                    assert(position_scan(m, n, position as int, empty_streak as int)
                        =~= Seq::<u32>::empty());
                    assert(position_scan(m, n, 0, 0) =~= processed);
                }
                return Ok(modules);
            }
            if self.store_has(StoreKey::PositionTaken(n, position)) {
                proof {
                    assert(position_scan(m, n, position as int, empty_streak as int) == seq![
                        position,
                    ] + position_scan(m, n, position as int + 1, 0));
                    assert(processed.push(position) + position_scan(m, n, position as int + 1, 0)
                        =~= processed + (seq![position] + position_scan(
                        m,
                        n,
                        position as int + 1,
                        0,
                    )));
                    lemma_filter_push(processed, pred, position);
                }
                empty_streak = 0;

                // Probe candidate ledger sequence numbers, reconstructing
                // the identifier format used at insertion.
                let mut seq_no: u32 = 0;
                let mut found = false;
                while seq_no < MODULE_SEQ_PROBE_LIMIT && !found
                    invariant
                        self.wf(),
                        m == self@,
                        pred == (|p: u32| find_module_seq(m, n, p, 0) is Some),
                        course_id@ == dec_digits(n as nat),
                        seq_no <= MODULE_SEQ_PROBE_LIMIT,
                        !found ==> find_module_seq(m, n, position, 0) == find_module_seq(
                            m,
                            n,
                            position,
                            seq_no as int,
                        ),
                        found ==> {
                            &&& find_module_seq(m, n, position, 0) == Some(seq_no)
                            &&& modules.deep_view() == processed.filter(pred).map_values(
                                |p: u32| found_module(m, n, p),
                            ).push(found_module(m, n, position))
                        },
                        !found ==> modules.deep_view() == processed.filter(pred).map_values(
                            |p: u32| found_module(m, n, p),
                        ),
                    decreases MODULE_SEQ_PROBE_LIMIT - seq_no, 1int + (if found {
                        0int
                    } else {
                        1int
                    }),
                {
                    match self.store_get(StoreKey::ModuleKey(n, position, seq_no)) {
                        Some(Record::ModuleRec(md)) => {
                            // The identifier format embeds the course, so
                            // the stored record always belongs here.
                            let same_course = md.course_id.eq(course_id);
                            proof {
                                assert(md@.course_id == dec_digits(n as nat));
                                assert(same_course);
                            }
                            if same_course {
                                let ghost old_dv = modules.deep_view();
                                let dup = md.duplicate();
                                modules.push(dup);
                                proof {
                                    assert(find_module_seq(m, n, position, seq_no as int) == Some(
                                        seq_no,
                                    ));
                                    assert(found_module(m, n, position) == md@);
                                    assert(modules.deep_view() =~= old_dv.push(md@));
                                }
                            }
                            found = true;
                        },
                        _ => {
                            proof {
                                assert(find_module_seq(m, n, position, seq_no as int)
                                    == find_module_seq(m, n, position, seq_no as int + 1));
                            }
                            seq_no = seq_no + 1;
                        },
                    }
                }
                proof {
                    if found {
                        assert(pred(position));
                        assert(processed.push(position).filter(pred) == processed.filter(
                            pred,
                        ).push(position));
                        assert(modules.deep_view() =~= processed.push(position).filter(
                            pred,
                        ).map_values(|p: u32| found_module(m, n, p)));
                    } else {
                        assert(find_module_seq(m, n, position, MODULE_SEQ_PROBE_LIMIT as int)
                            is None);
                        assert(!pred(position));
                        assert(modules.deep_view() =~= processed.push(position).filter(
                            pred,
                        ).map_values(|p: u32| found_module(m, n, p)));
                    }
                    processed = processed.push(position);
                }
            } else {
                proof {
                    assert(position_scan(m, n, position as int, empty_streak as int)
                        == position_scan(m, n, position as int + 1, empty_streak as int + 1));
                }
                empty_streak = empty_streak + 1;
            }
            position = position + 1;
        }
    }
}

/// Layout of a composite module identifier: where the prefix, the three
/// digit runs and the two separators sit.
pub proof fn lemma_module_id_format(s: Seq<char>, c: nat, p: nat, q: nat)
    requires
        s == module_id_chars(c, p, q),
    ensures
        s.len() == 9 + dec_digits(c).len() + dec_digits(p).len() + dec_digits(q).len(),
        s.subrange(0, 7) == module_prefix(),
        s.subrange(7, 7 + dec_digits(c).len() as int) == dec_digits(c),
        s[7 + dec_digits(c).len() as int] == '_',
        s.subrange(
            8 + dec_digits(c).len() as int,
            8 + dec_digits(c).len() as int + dec_digits(p).len() as int,
        ) == dec_digits(p),
        s[8 + dec_digits(c).len() as int + dec_digits(p).len() as int] == '_',
        s.subrange(
            9 + dec_digits(c).len() as int + dec_digits(p).len() as int,
            s.len() as int,
        ) == dec_digits(q),
{
    let l1 = dec_digits(c).len() as int;
    let l2 = dec_digits(p).len() as int;
    let l3 = dec_digits(q).len() as int;
    lemma_dec_digits_wf(c);
    lemma_dec_digits_wf(p);
    lemma_dec_digits_wf(q);
    assert(s.subrange(0, 7) =~= module_prefix());
    assert(s.subrange(7, 7 + l1) =~= dec_digits(c));
    assert(s.subrange(8 + l1, 8 + l1 + l2) =~= dec_digits(p));
    assert(s.subrange(9 + l1 + l2, s.len() as int) =~= dec_digits(q));
}

/// Two equal module identifiers come from the same course, position and
/// sequence number.
#[verifier::rlimit(100)]
pub proof fn lemma_module_id_injective(c1: nat, p1: nat, q1: nat, c2: nat, p2: nat, q2: nat)
    requires
        module_id_chars(c1, p1, q1) == module_id_chars(c2, p2, q2),
    ensures
        c1 == c2 && p1 == p2 && q1 == q2,
{
    let s = module_id_chars(c1, p1, q1);
    lemma_module_id_format(s, c1, p1, q1);
    lemma_module_id_format(s, c2, p2, q2);
    lemma_dec_digits_wf(c1);
    lemma_dec_digits_wf(c2);
    lemma_dec_digits_wf(p1);
    lemma_dec_digits_wf(p2);
    lemma_dec_digits_wf(q1);
    lemma_dec_digits_wf(q2);
    let a1 = dec_digits(c1).len() as int;
    let a2 = dec_digits(c2).len() as int;
    // The first separator pins the length of the course run.
    if a1 < a2 {
        assert(s[7 + a1] == '_');
        assert(s.subrange(7, 7 + a2)[a1] == s[7 + a1]);
        assert(digit_val(dec_digits(c2)[a1]) >= 0);
        assert(false);
    }
    if a2 < a1 {
        assert(s[7 + a2] == '_');
        assert(s.subrange(7, 7 + a1)[a2] == s[7 + a2]);
        assert(digit_val(dec_digits(c1)[a2]) >= 0);
        assert(false);
    }
    assert(dec_digits(c1) == dec_digits(c2));
    assert(c1 == c2) by {
        assert(dec_val(dec_digits(c1)) == c1);
        assert(dec_val(dec_digits(c2)) == c2);
    }
    let b1 = dec_digits(p1).len() as int;
    let b2 = dec_digits(p2).len() as int;
    // The second separator pins the length of the position run.
    if b1 < b2 {
        assert(s[8 + a1 + b1] == '_');
        assert(s.subrange(8 + a1, 8 + a1 + b2)[b1] == s[8 + a1 + b1]);
        assert(digit_val(dec_digits(p2)[b1]) >= 0);
        assert(false);
    }
    if b2 < b1 {
        assert(s[8 + a1 + b2] == '_');
        assert(s.subrange(8 + a1, 8 + a1 + b1)[b2] == s[8 + a1 + b2]);
        assert(digit_val(dec_digits(p1)[b2]) >= 0);
        assert(false);
    }
    assert(dec_digits(p1) == dec_digits(p2));
    assert(p1 == p2) by {
        assert(dec_val(dec_digits(p1)) == p1);
        assert(dec_val(dec_digits(p2)) == p2);
    }
    assert(dec_digits(q1) == dec_digits(q2));
    assert(q1 == q2) by {
        assert(dec_val(dec_digits(q1)) == q1);
        assert(dec_val(dec_digits(q2)) == q2);
    }
}

/// The triple a module identifier string denotes, if it is one.
pub open spec fn parse_module_id_spec(id: Seq<char>) -> Option<(u64, u32, u32)> {
    if exists|t: (u64, u32, u32)| id == module_id_chars(t.0 as nat, t.1 as nat, t.2 as nat) {
        Some(choose|t: (u64, u32, u32)| id == module_id_chars(t.0 as nat, t.1 as nat, t.2 as nat))
    } else {
        None
    }
}

/// First index at or after `start` whose character is not a digit.
fn scan_digits(s: &str, start: usize, len: usize) -> (j: usize)
    requires
        len == s@.len(),
        start <= len,
    ensures
        start <= j <= len,
        forall|i: int| start <= i < j ==> digit_val(#[trigger] s@[i]) >= 0,
        j < len ==> digit_val(s@[j as int]) < 0,
{
    let mut j = start;
    while j < len
        invariant
            len == s@.len(),
            start <= j <= len,
            forall|i: int| start <= i < j ==> digit_val(#[trigger] s@[i]) >= 0,
        decreases len - j,
    {
        let c = s.get_char(j);
        let d = match c {
            '0' => true,
            '1' => true,
            '2' => true,
            '3' => true,
            '4' => true,
            '5' => true,
            '6' => true,
            '7' => true,
            '8' => true,
            '9' => true,
            _ => false,
        };
        if !d {
            proof {
                assert(digit_val(s@[j as int]) < 0);
            }
            return j;
        }
        j = j + 1;
    }
    j
}

/// A digit run bounded by a scan aligns with the digit run of the
/// identifier format starting at the same index: the course run.
proof fn lemma_run1_align(s: Seq<char>, c: nat, p: nat, q: nat, j1: int)
    requires
        s == module_id_chars(c, p, q),
        7 <= j1 <= s.len(),
        forall|i: int| 7 <= i < j1 ==> digit_val(#[trigger] s[i]) >= 0,
        j1 < s.len() ==> digit_val(s[j1]) < 0,
    ensures
        j1 == 7 + dec_digits(c).len(),
{
    lemma_module_id_format(s, c, p, q);
    lemma_dec_digits_wf(c);
    lemma_dec_digits_wf(p);
    lemma_dec_digits_wf(q);
    let l1 = dec_digits(c).len() as int;
    if j1 < 7 + l1 {
        assert(s.subrange(7, 7 + l1)[j1 - 7] == s[j1]);
        assert(digit_val(dec_digits(c)[j1 - 7]) >= 0);
        assert(false);
    }
    if j1 > 7 + l1 {
        assert(s[7 + l1] == '_');
        assert(digit_val(s[7 + l1]) >= 0);
        assert(false);
    }
}

/// The same, for the position run following the first separator.
proof fn lemma_run2_align(s: Seq<char>, c: nat, p: nat, q: nat, j1: int, j2: int)
    requires
        s == module_id_chars(c, p, q),
        j1 == 7 + dec_digits(c).len(),
        j1 + 1 <= j2 <= s.len(),
        forall|i: int| j1 + 1 <= i < j2 ==> digit_val(#[trigger] s[i]) >= 0,
        j2 < s.len() ==> digit_val(s[j2]) < 0,
    ensures
        j2 == 8 + dec_digits(c).len() + dec_digits(p).len(),
{
    lemma_module_id_format(s, c, p, q);
    lemma_dec_digits_wf(c);
    lemma_dec_digits_wf(p);
    lemma_dec_digits_wf(q);
    let l1 = dec_digits(c).len() as int;
    let l2 = dec_digits(p).len() as int;
    if j2 < 8 + l1 + l2 {
        assert(s.subrange(8 + l1, 8 + l1 + l2)[j2 - 8 - l1] == s[j2]);
        assert(digit_val(dec_digits(p)[j2 - 8 - l1]) >= 0);
        assert(false);
    }
    if j2 > 8 + l1 + l2 {
        assert(s[8 + l1 + l2] == '_');
        assert(digit_val(s[8 + l1 + l2]) >= 0);
        assert(false);
    }
}

/// Parses the digit run `[start, j)` of `s` as a canonical decimal.
fn parse_run(s: &str, len: usize, start: usize, j: usize) -> (r: Option<u64>)
    requires
        len == s@.len(),
        start <= j <= len,
    ensures
        match r {
            Some(v) => s@.subrange(start as int, j as int) == dec_digits(v as nat),
            None => forall|v: u64|
                s@.subrange(start as int, j as int) != #[trigger] dec_digits(v as nat),
        },
{
    let sub = s.substring_char(start, j);
    parse_dec_u64(sub)
}

/// Strict parser of composite module identifiers: accepts exactly the
/// strings `module_id_chars` produces for a `u64` course and `u32`
/// position and sequence numbers.
#[verifier::rlimit(100)]
fn parse_module_id(s: &str) -> (r: Option<(u64, u32, u32)>)
    ensures
        match r {
            Some(t) => s@ == module_id_chars(t.0 as nat, t.1 as nat, t.2 as nat),
            None => forall|t: (u64, u32, u32)|
                s@ != module_id_chars(t.0 as nat, t.1 as nat, #[trigger] (t.2 as nat)),
        },
{
    let len = s.unicode_len();
    let prefix_ok = if len < 9 {
        false
    } else {
        s.get_char(0) == 'm' && s.get_char(1) == 'o' && s.get_char(2) == 'd' && s.get_char(3)
            == 'u' && s.get_char(4) == 'l' && s.get_char(5) == 'e' && s.get_char(6) == '_'
    };
    if !prefix_ok {
        proof {
            assert forall|t: (u64, u32, u32)|
                s@ != module_id_chars(t.0 as nat, t.1 as nat, #[trigger] (t.2 as nat)) by {
                if s@ == module_id_chars(t.0 as nat, t.1 as nat, t.2 as nat) {
                    lemma_module_id_format(s@, t.0 as nat, t.1 as nat, t.2 as nat);
                    lemma_dec_digits_wf(t.0 as nat);
                    lemma_dec_digits_wf(t.1 as nat);
                    lemma_dec_digits_wf(t.2 as nat);
                    assert(s@.len() >= 12);
                    assert(s@[0] == module_prefix()[0]);
                    assert(s@[1] == module_prefix()[1]);
                    assert(s@[2] == module_prefix()[2]);
                    assert(s@[3] == module_prefix()[3]);
                    assert(s@[4] == module_prefix()[4]);
                    assert(s@[5] == module_prefix()[5]);
                    assert(s@[6] == module_prefix()[6]);
                }
            }
        }
        return None;
    }
    let j1 = scan_digits(s, 7, len);
    let c_part = match parse_run(s, len, 7, j1) {
        Some(v) => v,
        None => {
            proof {
                assert forall|t: (u64, u32, u32)|
                    s@ != module_id_chars(t.0 as nat, t.1 as nat, #[trigger] (t.2 as nat)) by {
                    if s@ == module_id_chars(t.0 as nat, t.1 as nat, t.2 as nat) {
                        lemma_module_id_format(s@, t.0 as nat, t.1 as nat, t.2 as nat);
                        lemma_run1_align(s@, t.0 as nat, t.1 as nat, t.2 as nat, j1 as int);
                    }
                }
            }
            return None;
        },
    };
    let sep1_ok = j1 < len && s.get_char(j1) == '_';
    if !sep1_ok {
        proof {
            assert forall|t: (u64, u32, u32)|
                s@ != module_id_chars(t.0 as nat, t.1 as nat, #[trigger] (t.2 as nat)) by {
                if s@ == module_id_chars(t.0 as nat, t.1 as nat, t.2 as nat) {
                    lemma_module_id_format(s@, t.0 as nat, t.1 as nat, t.2 as nat);
                    lemma_run1_align(s@, t.0 as nat, t.1 as nat, t.2 as nat, j1 as int);
                    lemma_dec_digits_wf(t.1 as nat);
                    lemma_dec_digits_wf(t.2 as nat);
                }
            }
        }
        return None;
    }
    let j2 = scan_digits(s, j1 + 1, len);
    let p_part = match parse_run(s, len, j1 + 1, j2) {
        Some(v) => v,
        None => {
            proof {
                assert forall|t: (u64, u32, u32)|
                    s@ != module_id_chars(t.0 as nat, t.1 as nat, #[trigger] (t.2 as nat)) by {
                    if s@ == module_id_chars(t.0 as nat, t.1 as nat, t.2 as nat) {
                        lemma_module_id_format(s@, t.0 as nat, t.1 as nat, t.2 as nat);
                        lemma_run1_align(s@, t.0 as nat, t.1 as nat, t.2 as nat, j1 as int);
                        lemma_run2_align(
                            s@,
                            t.0 as nat,
                            t.1 as nat,
                            t.2 as nat,
                            j1 as int,
                            j2 as int,
                        );
                        assert(t.1 as u64 <= u64::MAX);
                    }
                }
            }
            return None;
        },
    };
    if p_part > u32::MAX as u64 {
        proof {
            assert forall|t: (u64, u32, u32)|
                s@ != module_id_chars(t.0 as nat, t.1 as nat, #[trigger] (t.2 as nat)) by {
                if s@ == module_id_chars(t.0 as nat, t.1 as nat, t.2 as nat) {
                    lemma_module_id_format(s@, t.0 as nat, t.1 as nat, t.2 as nat);
                    lemma_run1_align(s@, t.0 as nat, t.1 as nat, t.2 as nat, j1 as int);
                    lemma_run2_align(
                        s@,
                        t.0 as nat,
                        t.1 as nat,
                        t.2 as nat,
                        j1 as int,
                        j2 as int,
                    );
                    lemma_dec_digits_wf(t.1 as nat);
                    lemma_dec_digits_wf(p_part as nat);
                    assert(dec_digits(p_part as nat) == dec_digits(t.1 as nat));
                    assert(dec_val(dec_digits(p_part as nat)) == p_part);
                    assert(dec_val(dec_digits(t.1 as nat)) == t.1);
                }
            }
        }
        return None;
    }
    let sep2_ok = j2 < len && s.get_char(j2) == '_';
    if !sep2_ok {
        proof {
            assert forall|t: (u64, u32, u32)|
                s@ != module_id_chars(t.0 as nat, t.1 as nat, #[trigger] (t.2 as nat)) by {
                if s@ == module_id_chars(t.0 as nat, t.1 as nat, t.2 as nat) {
                    lemma_module_id_format(s@, t.0 as nat, t.1 as nat, t.2 as nat);
                    lemma_run1_align(s@, t.0 as nat, t.1 as nat, t.2 as nat, j1 as int);
                    lemma_run2_align(
                        s@,
                        t.0 as nat,
                        t.1 as nat,
                        t.2 as nat,
                        j1 as int,
                        j2 as int,
                    );
                    lemma_dec_digits_wf(t.2 as nat);
                }
            }
        }
        return None;
    }
    let j3 = scan_digits(s, j2 + 1, len);
    if j3 < len {
        proof {
            assert forall|t: (u64, u32, u32)|
                s@ != module_id_chars(t.0 as nat, t.1 as nat, #[trigger] (t.2 as nat)) by {
                if s@ == module_id_chars(t.0 as nat, t.1 as nat, t.2 as nat) {
                    lemma_module_id_format(s@, t.0 as nat, t.1 as nat, t.2 as nat);
                    lemma_run1_align(s@, t.0 as nat, t.1 as nat, t.2 as nat, j1 as int);
                    lemma_run2_align(
                        s@,
                        t.0 as nat,
                        t.1 as nat,
                        t.2 as nat,
                        j1 as int,
                        j2 as int,
                    );
                    lemma_dec_digits_wf(t.2 as nat);
                    let base = 9 + dec_digits(t.0 as nat).len() as int + dec_digits(
                        t.1 as nat,
                    ).len() as int;
                    assert(s@.subrange(base as int, s@.len() as int)[j3 - base] == s@[j3 as int]);
                    assert(digit_val(dec_digits(t.2 as nat)[j3 - base]) >= 0);
                }
            }
        }
        return None;
    }
    let q_part = match parse_run(s, len, j2 + 1, j3) {
        Some(v) => v,
        None => {
            proof {
                assert forall|t: (u64, u32, u32)|
                    s@ != module_id_chars(t.0 as nat, t.1 as nat, #[trigger] (t.2 as nat)) by {
                    if s@ == module_id_chars(t.0 as nat, t.1 as nat, t.2 as nat) {
                        lemma_module_id_format(s@, t.0 as nat, t.1 as nat, t.2 as nat);
                        lemma_run1_align(s@, t.0 as nat, t.1 as nat, t.2 as nat, j1 as int);
                        lemma_run2_align(
                            s@,
                            t.0 as nat,
                            t.1 as nat,
                            t.2 as nat,
                            j1 as int,
                            j2 as int,
                        );
                        assert(t.2 as u64 <= u64::MAX);
                    }
                }
            }
            return None;
        },
    };
    if q_part > u32::MAX as u64 {
        proof {
            assert forall|t: (u64, u32, u32)|
                s@ != module_id_chars(t.0 as nat, t.1 as nat, #[trigger] (t.2 as nat)) by {
                if s@ == module_id_chars(t.0 as nat, t.1 as nat, t.2 as nat) {
                    lemma_module_id_format(s@, t.0 as nat, t.1 as nat, t.2 as nat);
                    lemma_run1_align(s@, t.0 as nat, t.1 as nat, t.2 as nat, j1 as int);
                    lemma_run2_align(
                        s@,
                        t.0 as nat,
                        t.1 as nat,
                        t.2 as nat,
                        j1 as int,
                        j2 as int,
                    );
                    lemma_dec_digits_wf(t.2 as nat);
                    lemma_dec_digits_wf(q_part as nat);
                    assert(dec_digits(q_part as nat) == dec_digits(t.2 as nat));
                    assert(dec_val(dec_digits(q_part as nat)) == q_part);
                    assert(dec_val(dec_digits(t.2 as nat)) == t.2);
                }
            }
        }
        return None;
    }
    proof {
        lemma_dec_digits_wf(c_part as nat);
        lemma_dec_digits_wf(p_part as nat);
        lemma_dec_digits_wf(q_part as nat);
        reveal_strlit("module_");
        assert(s@ =~= module_id_chars(c_part as nat, p_part as nat, q_part as nat)) by {
            assert(j1 == 7 + dec_digits(c_part as nat).len());
            assert(j2 == j1 + 1 + dec_digits(p_part as nat).len());
            assert(j3 == j2 + 1 + dec_digits(q_part as nat).len());
            assert(forall|i: int|
                7 <= i < j1 ==> #[trigger] s@[i] == dec_digits(c_part as nat)[i - 7]);
            assert(forall|i: int|
                j1 + 1 <= i < j2 ==> #[trigger] s@[i] == dec_digits(p_part as nat)[i - j1 - 1]);
            assert(forall|i: int|
                j2 + 1 <= i < j3 ==> #[trigger] s@[i] == dec_digits(q_part as nat)[i - j2 - 1]);
        }
    }
    Some((c_part, p_part as u32, q_part as u32))
}

/// Whether `id` denotes a module stored in `m`.
pub open spec fn module_exists(m: Map<StoreKey, RecordV>, id: Seq<char>) -> bool {
    parse_module_id_spec(id) matches Some(t) && m.contains_key(
        StoreKey::ModuleKey(t.0, t.1, t.2),
    )
}

impl CourseRegistry {
    /// Removes a module by its composite identifier: a direct key removal
    /// that fails when no module is stored under it.  The position-taken
    /// marker is left in place, so the position can never be reused.
    pub fn remove_module(&mut self, module_id: &String) -> (r: Result<(), Error>)
        requires
            old(self).wf(),
        ensures
            final(self).wf(),
            match r {
                Ok(()) => {
                    &&& module_exists(old(self)@, module_id@)
                    &&& parse_module_id_spec(module_id@) matches Some(t) && final(self)@ == old(
                        self,
                    )@.remove(StoreKey::ModuleKey(t.0, t.1, t.2))
                },
                Err(e) => {
                    &&& e == Error::ModuleNotFound
                    &&& !module_exists(old(self)@, module_id@)
                    &&& *final(self) == *old(self)
                },
            },
    {
        let t = match parse_module_id(module_id.as_str()) {
            Some(t) => t,
            None => {
                proof {
                    assert(parse_module_id_spec(module_id@) is None) by {
                        if parse_module_id_spec(module_id@) is Some {
                            let t0 = choose|t0: (u64, u32, u32)|
                                module_id@ == module_id_chars(
                                    t0.0 as nat,
                                    t0.1 as nat,
                                    t0.2 as nat,
                                );
                        }
                    }
                }
                return Err(Error::ModuleNotFound);
            },
        };
        proof {
            assert(parse_module_id_spec(module_id@) == Some(t)) by {
                assert(module_id@ == module_id_chars(t.0 as nat, t.1 as nat, t.2 as nat));
                let t0 = choose|t0: (u64, u32, u32)|
                    module_id@ == module_id_chars(t0.0 as nat, t0.1 as nat, t0.2 as nat);
                lemma_module_id_injective(
                    t0.0 as nat,
                    t0.1 as nat,
                    t0.2 as nat,
                    t.0 as nat,
                    t.1 as nat,
                    t.2 as nat,
                );
                assert(t0.0 == t.0 && t0.1 == t.1 && t0.2 == t.2);
                assert(t0 == t);
            }
        }
        let (c, p, q) = t;
        if !self.store_has(StoreKey::ModuleKey(c, p, q)) {
            return Err(Error::ModuleNotFound);
        }
        self.store_remove(StoreKey::ModuleKey(c, p, q));
        proof {
            crate::registry::lemma_wf_remove(old(self)@, StoreKey::ModuleKey(c, p, q));
        }
        Ok(())
    }
}

/// Builds the composite module identifier string
/// `module_<course>_<position>_<sequence>`.
fn build_module_id(course_id: &String, n: u64, position: u32, ledger_seq: u32) -> (r: String)
    requires
        course_id@ == dec_digits(n as nat),
    ensures
        r@ == module_id_chars(n as nat, position as nat, ledger_seq as nat),
{
    let mut s = String::new();
    s.append("module_");
    proof {
        reveal_strlit("module_");
        assert("module_"@ =~= module_prefix());
    }
    s.append(course_id.as_str());
    s.append("_");
    let pos_str = u64_to_dec_string(position as u64);
    s.append(pos_str.as_str());
    s.append("_");
    let seq_str = u64_to_dec_string(ledger_seq as u64);
    s.append(seq_str.as_str());
    proof {
        reveal_strlit("_");
        assert("_"@ =~= seq!['_']);
        assert(s@ =~= module_id_chars(n as nat, position as nat, ledger_seq as nat));
    }
    s
}

} // verus!
