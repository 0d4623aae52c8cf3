//! Number literals: which texts denote an integer or a float, and the
//! decimal text of an integer.
use vstd::prelude::*;
use crate::text::{find, find_char, lemma_find, slice};
use crate::types::{fold_chars, folded};

verus! {

pub open spec fn is_digit(c: char) -> bool {
    '0' <= c <= '9'
}

pub open spec fn digit_val(c: char) -> int {
    (c as u32) as int - 48
}

/// Whether `s` is one or more decimal digits.
pub open spec fn all_digits(s: Seq<char>) -> bool {
    s.len() > 0 && forall|i: int| 0 <= i < s.len() ==> #[trigger] is_digit(s[i])
}

/// Whether `s` is zero or more decimal digits.
pub open spec fn only_digits(s: Seq<char>) -> bool {
    forall|i: int| 0 <= i < s.len() ==> #[trigger] is_digit(s[i])
}

/// The number that the digits `s` spell.
pub open spec fn digits_val(s: Seq<char>) -> int
    decreases s.len(),
{
    if s.len() == 0 {
        0
    } else {
        digits_val(s.drop_last()) * 10 + digit_val(s.last())
    }
}

/// `s` without a leading `+` or `-`.
pub open spec fn unsigned(s: Seq<char>) -> Seq<char> {
    if s.len() > 0 && (s[0] == '+' || s[0] == '-') {
        s.drop_first()
    } else {
        s
    }
}

/// The 64-bit integer that `s` denotes: an optional sign and one or more
/// decimal digits, within range.
pub open spec fn int_text(s: Seq<char>) -> Option<i64> {
    let d = unsigned(s);
    let v = if s.len() > 0 && s[0] == '-' {
        -digits_val(d)
    } else {
        digits_val(d)
    };
    if all_digits(d) && i64::MIN <= v <= i64::MAX {
        Some(v as i64)
    } else {
        None
    }
}

/// Whether `s` is a decimal float with a point: an optional sign, digits
/// with one `.` and a digit on at least one side of it, then optionally
/// `e` or `E`, an optional sign and one or more digits.
pub open spec fn float_text(s: Seq<char>) -> bool {
    let b = unsigned(s);
    let m = match find(folded(b), 'e') {
        Some(i) => b.subrange(0, i),
        None => b,
    };
    let exp_ok = match find(folded(b), 'e') {
        Some(i) => all_digits(unsigned(b.subrange(i + 1, b.len() as int))),
        None => true,
    };
    match find(m, '.') {
        Some(j) => only_digits(m.subrange(0, j)) && only_digits(m.subrange(j + 1, m.len() as int))
            && m.len() >= 2 && exp_ok,
        None => false,
    }
}

const CAP: i128 = 9223372036854775809;

proof fn lemma_digits_bound(s: Seq<char>)
    requires
        only_digits(s),
    ensures
        digits_val(s) >= 0,
    decreases s.len(),
{
    if s.len() > 0 {
        assert(is_digit(s[s.len() - 1]));
        lemma_digits_bound(s.drop_last());
    }
}

fn unsigned_start(v: &Vec<char>) -> (r: usize)
    ensures
        r <= v.len(),
        v@.subrange(r as int, v@.len() as int) == unsigned(v@),
{
    if v.len() > 0 && (v[0] == '+' || v[0] == '-') {
        1
    } else {
        assert(v@.subrange(0, v@.len() as int) == v@);
        0
    }
}

fn digits_only(v: &Vec<char>) -> (r: bool)
    ensures
        r == only_digits(v@),
{
    let mut i: usize = 0;
    while i < v.len()
        invariant
            i <= v.len(),
            forall|k: int| 0 <= k < i ==> #[trigger] is_digit(v@[k]),
        decreases v.len() - i,
    {
        if !('0' <= v[i] && v[i] <= '9') {
            assert(!is_digit(v@[i as int]));
            return false;
        }
        i += 1;
    }
    true
}

/// The integer that `v` denotes, if it is an integer literal in range.
pub fn int_of(v: &Vec<char>) -> (r: Option<i64>)
    ensures
        r == int_text(v@),
{
    let st = unsigned_start(v);
    let d = slice(v, st, v.len());
    if d.len() == 0 || !digits_only(&d) {
        return None;
    }
    let mut acc: i128 = 0;
    let mut i: usize = 0;
    while i < d.len()
        invariant
            i <= d.len(),
            only_digits(d@),
            acc == if digits_val(d@.take(i as int)) < CAP { digits_val(d@.take(i as int)) } else { CAP as int },
            0 <= acc <= CAP,
        decreases d.len() - i,
    {
        let c = d[i];
        assert(is_digit(d@[i as int]));
        let dv = (c as u32 - 48) as i128;
        assert(d@.take(i + 1).drop_last() == d@.take(i as int));
        proof { lemma_digits_bound(d@.take(i as int)); }
        let next = acc * 10 + dv;
        acc = if next < CAP { next } else { CAP };
        i += 1;
    }
    assert(d@.take(d.len() as int) == d@);
    let neg = v.len() > 0 && v[0] == '-';
    if acc == CAP {
        proof { lemma_digits_bound(d@); }
        return None;
    }
    if neg {
        if acc > 9223372036854775808 {
            None
        } else {
            Some((-acc) as i64)
        }
    } else {
        if acc > 9223372036854775807 {
            None
        } else {
            Some(acc as i64)
        }
    }
}

/// Whether `v` is a float literal with a decimal point.
pub fn is_float_text(v: &Vec<char>) -> (r: bool)
    ensures
        r == float_text(v@),
{
    let st = unsigned_start(v);
    let b = slice(v, st, v.len());
    let f = fold_chars(&b);
    let e = find_char(&f, 'e');
    proof { lemma_find(f@, 'e'); }
    assert(f@.len() == b@.len());
    let mut exp_ok = true;
    let m = match e {
        Some(i) => {
            let x = slice(&b, i + 1, b.len());
            let xs = unsigned_start(&x);
            let xd = slice(&x, xs, x.len());
            exp_ok = xd.len() > 0 && digits_only(&xd);
            slice(&b, 0, i)
        },
        None => b,
    };
    match find_char(&m, '.') {
        Some(j) => {
            proof { lemma_find(m@, '.'); }
            let a = slice(&m, 0, j);
            let z = slice(&m, j + 1, m.len());
            digits_only(&a) && digits_only(&z) && m.len() >= 2 && exp_ok
        },
        None => false,
    }
}

} // verus!
