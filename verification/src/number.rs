//! Numbers written in decimal digits.
use vstd::prelude::*;
use vstd::string::*;

use crate::text::{chars_of, is_digit};

verus! {

/// The number that is given, or another where none is.
pub open spec fn chosen(value: Option<usize>, other: usize) -> usize {
    match value {
        Some(n) => n,
        None => other,
    }
}

/// The number that a run of digits writes.
pub open spec fn digits_value(s: Seq<char>) -> nat
    decreases s.len(),
{
    if s.len() == 0 {
        0
    } else {
        digits_value(s.drop_last()) * 10 + (s.last() as int - '0' as int) as nat
    }
}

pub open spec fn all_digits(s: Seq<char>) -> bool {
    forall|i: int| 0 <= i < s.len() ==> is_digit(#[trigger] s[i])
}

/// The text behind a plus sign, where it begins with one.
pub open spec fn unsigned_part(s: Seq<char>) -> Seq<char> {
    if s.len() > 0 && s[0] == '+' {
        s.subrange(1, s.len() as int)
    } else {
        s
    }
}

/// The number that a text writes: digits, at least one, perhaps behind a plus
/// sign, and not more than 64 bits hold.
pub open spec fn number_of(s: Seq<char>) -> Option<u64> {
    let d = unsigned_part(s);
    if d.len() > 0 && all_digits(d) && digits_value(d) <= u64::MAX {
        Some(digits_value(d) as u64)
    } else {
        None
    }
}

/// Reads a number.
pub fn parse_u64(s: &str) -> (r: Option<u64>)
    ensures
        r == number_of(s@),
{
    let v: Vec<char> = chars_of(s);
    let start: usize = if v.len() > 0 && v[0] == '+' {
        1
    } else {
        0
    };
    let ghost d = unsigned_part(s@);
    proof {
        assert(d =~= v@.subrange(start as int, v@.len() as int));
    }
    if start == v.len() {
        return None;
    }
    let mut i: usize = start;
    let mut value: u64 = 0;
    let mut over: bool = false;
    assert(d.subrange(0, 0) =~= Seq::<char>::empty());
    while i < v.len()
        invariant
            start <= i <= v@.len(),
            start <= 1,
            d == unsigned_part(s@),
            d == v@.subrange(start as int, v@.len() as int),
            all_digits(d.subrange(0, i - start)),
            !over ==> value == digits_value(d.subrange(0, i - start)),
            over ==> digits_value(d.subrange(0, i - start)) > u64::MAX,
        decreases v@.len() - i,
    {
        let c: char = v[i];
        let ghost shorter = d.subrange(0, i - start);
        let ghost longer = d.subrange(0, i - start + 1);
        proof {
            assert(d[i - start] == c);
            assert(longer.drop_last() =~= shorter);
            assert(longer.last() == c);
        }
        if !('0' <= c && c <= '9') {
            assert(!is_digit(d[i - start]));
            return None;
        }
        proof {
            assert forall|k: int| 0 <= k < longer.len() implies is_digit(#[trigger] longer[k]) by {
                if k < shorter.len() {
                    assert(longer[k] == shorter[k]);
                }
            }
        }
        let digit: u64 = (c as u64) - ('0' as u64);
        if over || value > (u64::MAX - digit) / 10 {
            over = true;
        } else {
            value = value * 10 + digit;
        }
        i += 1;
    }
    assert(d.subrange(0, i - start) =~= d);
    if over {
        None
    } else {
        Some(value)
    }
}

} // verus!
