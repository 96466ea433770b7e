//! Canonical decimal encoding of numeric identifiers.
//!
//! Identifiers are surfaced to callers as decimal strings to keep key
//! encoding uniform.  `dec_digits` is the mathematical form of that
//! encoding; the executable conversion and the strict parser are verified
//! against it, and the parser accepts exactly the canonical strings (no
//! empty string, no leading zero, no overflow).

use vstd::prelude::*;

verus! {

/// The character of one decimal digit.
pub open spec fn digit_char(d: int) -> char {
    if d == 0 {
        '0'
    } else if d == 1 {
        '1'
    } else if d == 2 {
        '2'
    } else if d == 3 {
        '3'
    } else if d == 4 {
        '4'
    } else if d == 5 {
        '5'
    } else if d == 6 {
        '6'
    } else if d == 7 {
        '7'
    } else if d == 8 {
        '8'
    } else {
        '9'
    }
}

/// The value of a digit character, or -1 for any other character.
pub open spec fn digit_val(c: char) -> int {
    if c == '0' {
        0
    } else if c == '1' {
        1
    } else if c == '2' {
        2
    } else if c == '3' {
        3
    } else if c == '4' {
        4
    } else if c == '5' {
        5
    } else if c == '6' {
        6
    } else if c == '7' {
        7
    } else if c == '8' {
        8
    } else if c == '9' {
        9
    } else {
        -1
    }
}

/// Canonical decimal representation of a number.
pub open spec fn dec_digits(n: nat) -> Seq<char>
    decreases n,
{
    if n < 10 {
        seq![digit_char(n as int)]
    } else {
        dec_digits(n / 10) + seq![digit_char((n % 10) as int)]
    }
}

/// Every character is a decimal digit.
pub open spec fn all_digits(s: Seq<char>) -> bool {
    forall|i: int| 0 <= i < s.len() ==> digit_val(#[trigger] s[i]) >= 0
}

/// Numeric value of a digit string, most significant digit first.
pub open spec fn dec_val(s: Seq<char>) -> int
    decreases s.len(),
{
    if s.len() == 0 {
        0
    } else {
        dec_val(s.drop_last()) * 10 + digit_val(s.last())
    }
}

/// A canonical decimal string: nonempty, digits only, no leading zero.
pub open spec fn is_canon_dec(s: Seq<char>) -> bool {
    &&& s.len() > 0
    &&& all_digits(s)
    &&& (s.len() > 1 ==> s[0] != '0')
}

/// The two digit tables invert each other.
pub proof fn lemma_digit_roundtrip(d: int)
    requires
        0 <= d < 10,
    ensures
        digit_val(digit_char(d)) == d,
{
}

/// The value of a one-character digit string is that digit.
pub proof fn lemma_dec_val_single(c: char)
    ensures
        dec_val(seq![c]) == digit_val(c),
{
    let s = seq![c];
    assert(s.drop_last() =~= Seq::<char>::empty());
    assert(dec_val(s.drop_last()) == 0);
    assert(s.last() == c);
}

/// `dec_digits(n)` is canonical, values back to `n`, and opens with a
/// nonzero digit whenever `n > 0`.
pub proof fn lemma_dec_digits_wf(n: nat)
    ensures
        is_canon_dec(dec_digits(n)),
        dec_val(dec_digits(n)) == n,
        n > 0 ==> digit_val(dec_digits(n)[0]) > 0,
    decreases n,
{
    if n < 10 {
        assert(dec_digits(n) == seq![digit_char(n as int)]);
        lemma_digit_roundtrip(n as int);
        lemma_dec_val_single(digit_char(n as int));
    } else {
        lemma_dec_digits_wf(n / 10);
        let head = dec_digits(n / 10);
        let s = dec_digits(n);
        assert(s == head + seq![digit_char((n % 10) as int)]);
        assert(s.drop_last() =~= head);
        assert(s.last() == digit_char((n % 10) as int));
        lemma_digit_roundtrip((n % 10) as int);
        assert(dec_val(s) == dec_val(head) * 10 + (n % 10));
        assert(forall|i: int| 0 <= i < head.len() ==> s[i] == head[i]);
        assert(all_digits(s));
        assert(s[0] == head[0]);
    }
}

/// A digit string with a nonzero first digit has a positive value.
pub proof fn lemma_canon_positive(s: Seq<char>)
    requires
        is_canon_dec(s),
        digit_val(s[0]) > 0,
    ensures
        dec_val(s) > 0,
    decreases s.len(),
{
    if s.len() == 1 {
        assert(s =~= seq![s[0]]);
        lemma_dec_val_single(s[0]);
    } else {
        let head = s.drop_last();
        assert(head[0] == s[0]);
        assert(is_canon_dec(head));
        lemma_canon_positive(head);
        assert(digit_val(s[s.len() - 1]) >= 0);
        assert(dec_val(s) == dec_val(head) * 10 + digit_val(s.last()));
    }
}

/// The value of a digit string is nonnegative.
pub proof fn lemma_dec_val_bounds(s: Seq<char>)
    requires
        all_digits(s),
    ensures
        dec_val(s) >= 0,
    decreases s.len(),
{
    if s.len() > 0 {
        assert(all_digits(s.drop_last()));
        assert(digit_val(s.last()) >= 0);
        lemma_dec_val_bounds(s.drop_last());
    }
}

/// A canonical decimal string is the encoding of its own value.
pub proof fn lemma_canon_dec_digits(s: Seq<char>)
    requires
        is_canon_dec(s),
    ensures
        dec_val(s) >= 0,
        dec_digits(dec_val(s) as nat) == s,
    decreases s.len(),
{
    lemma_dec_val_bounds(s);
    if s.len() == 1 {
        let d = digit_val(s[0]);
        assert(s =~= seq![s[0]]);
        lemma_dec_val_single(s[0]);
        assert(dec_val(s) == d);
        assert(dec_digits(d as nat) == seq![digit_char(d)]);
        assert(digit_char(d) == s[0]);
        assert(dec_digits(d as nat) =~= s);
    } else {
        let head = s.drop_last();
        let d = digit_val(s.last());
        assert(head[0] == s[0]);
        assert(is_canon_dec(head));
        assert(s[0] != '0');
        assert(digit_val(s[0]) > 0);
        lemma_canon_positive(head);
        lemma_canon_dec_digits(head);
        let v = dec_val(head);
        assert(dec_val(s) == v * 10 + d);
        assert(v >= 1);
        assert(v * 10 + d >= 10);
        assert((v * 10 + d) / 10 == v && (v * 10 + d) % 10 == d) by (nonlinear_arith)
            requires
                v >= 1,
                0 <= d < 10,
        ;
        assert(dec_digits((v * 10 + d) as nat) == dec_digits(v as nat) + seq![digit_char(d)]);
        assert(dec_digits(dec_val(s) as nat) =~= s);
    }
}

/// The value of a digit-string prefix never exceeds the whole string's.
pub proof fn lemma_dec_val_prefix_mono(s: Seq<char>, i: int)
    requires
        all_digits(s),
        0 <= i <= s.len(),
    ensures
        dec_val(s.subrange(0, i)) <= dec_val(s),
    decreases s.len() - i,
{
    if i < s.len() {
        let t = s.subrange(0, i + 1);
        assert(t.drop_last() =~= s.subrange(0, i));
        assert(all_digits(t));
        lemma_dec_val_bounds(t.drop_last());
        assert(dec_val(t) == dec_val(s.subrange(0, i)) * 10 + digit_val(s[i]));
        assert(dec_val(s.subrange(0, i)) <= dec_val(t));
        lemma_dec_val_prefix_mono(s, i + 1);
        assert(s.subrange(0, s.len() as int) =~= s);
    } else {
        assert(s.subrange(0, i) =~= s);
    }
}

/// The fixed prefix of a composite module identifier.
pub open spec fn module_prefix() -> Seq<char> {
    seq!['m', 'o', 'd', 'u', 'l', 'e', '_']
}

/// The composite identifier of a module: a fixed prefix, the course
/// number, the position and the ledger sequence number at insertion, the
/// numbers in canonical decimal form and separated by underscores.
pub open spec fn module_id_chars(c: nat, p: nat, q: nat) -> Seq<char> {
    module_prefix() + dec_digits(c) + seq!['_'] + dec_digits(p) + seq!['_'] + dec_digits(q)
}

/// The digit character of `d`, as a one-character string slice.
fn digit_str(d: u8) -> (r: &'static str)
    requires
        d < 10,
    ensures
        r@ == seq![digit_char(d as int)],
{
    let r: &'static str = match d {
        0 => "0",
        1 => "1",
        2 => "2",
        3 => "3",
        4 => "4",
        5 => "5",
        6 => "6",
        7 => "7",
        8 => "8",
        _ => "9",
    };
    proof {
        reveal_strlit("0");
        reveal_strlit("1");
        reveal_strlit("2");
        reveal_strlit("3");
        reveal_strlit("4");
        reveal_strlit("5");
        reveal_strlit("6");
        reveal_strlit("7");
        reveal_strlit("8");
        reveal_strlit("9");
        assert(r@ =~= seq![digit_char(d as int)]);
    }
    r
}

/// The digit value of a character, if it is one.
fn char_digit(c: char) -> (r: Option<u8>)
    ensures
        match r {
            Some(d) => d < 10 && digit_val(c) == d,
            None => digit_val(c) < 0,
        },
{
    match c {
        '0' => Some(0),
        '1' => Some(1),
        '2' => Some(2),
        '3' => Some(3),
        '4' => Some(4),
        '5' => Some(5),
        '6' => Some(6),
        '7' => Some(7),
        '8' => Some(8),
        '9' => Some(9),
        _ => None,
    }
}

/// Renders a number in its canonical decimal form.
pub fn u64_to_dec_string(n: u64) -> (s: String)
    ensures
        s@ == dec_digits(n as nat),
{
    let mut digits: Vec<u8> = Vec::new();
    let mut cur: u64 = n;
    while cur >= 10
        invariant
            forall|j: int| 0 <= j < digits.len() ==> #[trigger] digits@[j] < 10,
            dec_digits(n as nat) =~= dec_digits(cur as nat) + Seq::new(
                digits.len() as nat,
                |j: int| digit_char(digits@[digits.len() - 1 - j] as int),
            ),
        decreases cur,
    {
        let ghost prev = cur;
        let d: u8 = (cur % 10) as u8;
        digits.push(d);
        cur = cur / 10;
        proof {
            assert(dec_digits(prev as nat) == dec_digits(cur as nat) + seq![
                digit_char((prev % 10) as int),
            ]);
            assert(dec_digits(n as nat) =~= dec_digits(cur as nat) + Seq::new(
                digits.len() as nat,
                |j: int| digit_char(digits@[digits.len() - 1 - j] as int),
            ));
        }
    }
    digits.push(cur as u8);
    proof {
        assert(dec_digits(cur as nat) == seq![digit_char(cur as int)]);
        assert(dec_digits(n as nat) =~= Seq::new(
            digits.len() as nat,
            |j: int| digit_char(digits@[digits.len() - 1 - j] as int),
        ));
    }
    let mut s = String::new();
    let mut i: usize = digits.len();
    while i > 0
        invariant
            i <= digits.len(),
            forall|j: int| 0 <= j < digits.len() ==> #[trigger] digits@[j] < 10,
            dec_digits(n as nat) =~= Seq::new(
                digits.len() as nat,
                |j: int| digit_char(digits@[digits.len() - 1 - j] as int),
            ),
            s@ =~= dec_digits(n as nat).subrange(0, digits.len() - i),
        decreases i,
    {
        i = i - 1;
        let d = digits[i];
        s.append(digit_str(d));
        proof {
            assert(s@ =~= dec_digits(n as nat).subrange(0, digits.len() - i));
        }
    }
    proof {
        assert(s@ =~= dec_digits(n as nat));
    }
    s
}

/// Strict parser: accepts exactly the canonical decimal form of a `u64`.
pub fn parse_dec_u64(s: &str) -> (r: Option<u64>)
    ensures
        match r {
            Some(n) => s@ == dec_digits(n as nat),
            None => forall|n: u64| s@ != #[trigger] dec_digits(n as nat),
        },
{
    let len = s.unicode_len();
    if len == 0 {
        proof {
            assert forall|n: u64| s@ != #[trigger] dec_digits(n as nat) by {
                lemma_dec_digits_wf(n as nat);
            }
        }
        return None;
    }
    let mut i: usize = 0;
    let mut acc: u64 = 0;
    while i < len
        invariant
            0 < len == s@.len(),
            0 <= i <= len,
            all_digits(s@.subrange(0, i as int)),
            acc == dec_val(s@.subrange(0, i as int)),
            i > 0 ==> s@[0] != '0' || len == 1,
        decreases len - i,
    {
        let c = s.get_char(i);
        let d = match char_digit(c) {
            Some(d) => d,
            None => {
                proof {
                    assert(digit_val(s@[i as int]) < 0);
                    assert forall|n: u64| s@ != #[trigger] dec_digits(n as nat) by {
                        lemma_dec_digits_wf(n as nat);
                    }
                }
                return None;
            },
        };
        if i == 0 && d == 0 && len > 1 {
            proof {
                assert(s@[0] == '0');
                assert forall|n: u64| s@ != #[trigger] dec_digits(n as nat) by {
                    lemma_dec_digits_wf(n as nat);
                    if s@ == dec_digits(n as nat) {
                        assert(digit_val(dec_digits(n as nat)[0]) > 0 || dec_digits(
                            n as nat,
                        ).len() == 1);
                    }
                }
            }
            return None;
        }
        if acc > (u64::MAX - (d as u64)) / 10 {
            proof {
                assert forall|n: u64| s@ != #[trigger] dec_digits(n as nat) by {
                    if s@ == dec_digits(n as nat) {
                        lemma_dec_digits_wf(n as nat);
                        lemma_dec_val_prefix_mono(s@, i + 1);
                        let t = s@.subrange(0, i + 1);
                        assert(t.drop_last() =~= s@.subrange(0, i as int));
                        assert(dec_val(t) == acc * 10 + digit_val(s@[i as int]));
                        assert(dec_val(s@) == n);
                        assert(acc * 10 + d <= n);
                        assert(acc <= (u64::MAX - (d as u64)) / 10);
                    }
                }
            }
            return None;
        }
        let new_acc: u64 = acc * 10 + (d as u64);
        proof {
            let t = s@.subrange(0, i + 1);
            assert(t.drop_last() =~= s@.subrange(0, i as int));
            assert(all_digits(t));
            assert(dec_val(t) == acc * 10 + d);
        }
        acc = new_acc;
        i = i + 1;
    }
    proof {
        assert(s@.subrange(0, len as int) =~= s@);
        assert(is_canon_dec(s@));
        lemma_canon_dec_digits(s@);
        assert(dec_digits(acc as nat) == s@);
    }
    Some(acc)
}

} // verus!
