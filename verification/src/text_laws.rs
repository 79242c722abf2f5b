//! Laws of texts: what trimming, ordering and spelling do to the characters.
use vstd::prelude::*;

use crate::article::is_blank;
use crate::number::{all_digits, digits_value, number_of, unsigned_part};
use crate::tables::sys_id_of;
use crate::text::{
    decimal, digit_char, has_text, is_digit, is_identifier, is_white_space, lemma_trim_stretch,
    lower, lower_char, names_of, or_empty, same_ignoring_case, text_less, text_of, text_of_ref,
    texts, trim, upper,
};

verus! {

/// Which characters are white space.
pub proof fn white_space_is_what_unicode_says(c: char)
    ensures
        is_white_space(c) <==> {
            let n = c as u32;
            ||| 9 <= n <= 13
            ||| n == 0x20
            ||| n == 0x85
            ||| n == 0xa0
            ||| n == 0x1680
            ||| 0x2000 <= n <= 0x200a
            ||| n == 0x2028
            ||| n == 0x2029
            ||| n == 0x202f
            ||| n == 0x205f
            ||| n == 0x3000
        },
{
}

/// A trimmed text is a stretch of the text without white space at its ends, and
/// nothing but white space was taken off.
pub proof fn trimming_takes_off_white_space(s: Seq<char>)
    ensures
        exists|from: int, to: int|
            0 <= from <= to <= s.len() && #[trigger] s.subrange(from, to) == trim(s) && (forall|
                i: int,
            |
                0 <= i < s.len() && !(from <= i < to) ==> is_white_space(#[trigger] s[i])) && (from
                < to ==> !is_white_space(s[from]) && !is_white_space(s[to - 1])),
{
    let (from, to) = lemma_trim_stretch(s);
    assert(s.subrange(from, to) == trim(s));
}

/// A text is blank where it holds nothing but white space.
pub proof fn blank_texts_are_white(s: Seq<char>)
    ensures
        is_blank(s) <==> forall|i: int| 0 <= i < s.len() ==> is_white_space(#[trigger] s[i]),
{
    let (from, to) = lemma_trim_stretch(s);
    if from < to {
        assert(!is_white_space(s[from]));
    }
}

/// One text comes before another where the first character in which they differ does,
/// or where it ends first.
pub proof fn texts_are_ordered_by_their_first_difference(a: Seq<char>, b: Seq<char>)
    ensures
        text_less(a, b) <==> exists|k: int|
            0 <= k <= a.len() && k < b.len() && #[trigger] a.subrange(0, k) == b.subrange(0, k) && (
            k == a.len() || a[k] < b[k]),
    decreases a.len(),
{
    if b.len() == 0 {
    } else if a.len() == 0 {
        assert(a.subrange(0, 0) =~= b.subrange(0, 0));
    } else {
        let x = a.subrange(1, a.len() as int);
        let y = b.subrange(1, b.len() as int);
        texts_are_ordered_by_their_first_difference(x, y);
        if a[0] == b[0] {
            if text_less(x, y) {
                let k = choose|k: int|
                    0 <= k <= x.len() && k < y.len() && #[trigger] x.subrange(0, k) == y.subrange(
                        0,
                        k,
                    ) && (k == x.len() || x[k] < y[k]);
                assert forall|i: int| 0 <= i < k + 1 implies a[i] == b[i] by {
                    if i > 0 {
                        assert(x.subrange(0, k)[i - 1] == y.subrange(0, k)[i - 1]);
                    }
                }
                assert(a.subrange(0, k + 1) =~= b.subrange(0, k + 1));
            }
            if exists|k: int|
                0 <= k <= a.len() && k < b.len() && #[trigger] a.subrange(0, k) == b.subrange(0, k)
                    && (k == a.len() || a[k] < b[k]) {
                let k = choose|k: int|
                    0 <= k <= a.len() && k < b.len() && #[trigger] a.subrange(0, k) == b.subrange(
                        0,
                        k,
                    ) && (k == a.len() || a[k] < b[k]);
                assert(k > 0);
                assert forall|i: int| 0 <= i < k - 1 implies x[i] == y[i] by {
                    assert(a.subrange(0, k)[i + 1] == b.subrange(0, k)[i + 1]);
                }
                assert(x.subrange(0, k - 1) =~= y.subrange(0, k - 1));
            }
        } else {
            assert(a.subrange(0, 0) =~= b.subrange(0, 0));
            if exists|k: int|
                0 <= k <= a.len() && k < b.len() && #[trigger] a.subrange(0, k) == b.subrange(0, k)
                    && (k == a.len() || a[k] < b[k]) {
                let k = choose|k: int|
                    0 <= k <= a.len() && k < b.len() && #[trigger] a.subrange(0, k) == b.subrange(
                        0,
                        k,
                    ) && (k == a.len() || a[k] < b[k]);
                if k > 0 {
                    assert(a.subrange(0, k)[0] == b.subrange(0, k)[0]);
                }
            }
        }
    }
}

/// Small letters stand in the places of the capitals, and nothing else changes; and the
/// other way round.
pub proof fn only_the_case_of_letters_changes(s: Seq<char>, i: int)
    requires
        0 <= i < s.len(),
    ensures
        lower(s).len() == s.len(),
        upper(s).len() == s.len(),
        'A' <= s[i] <= 'Z' ==> lower(s)[i] as u32 == s[i] as u32 + 32,
        !('A' <= s[i] <= 'Z') ==> lower(s)[i] == s[i],
        'a' <= s[i] <= 'z' ==> upper(s)[i] as u32 + 32 == s[i] as u32,
        !('a' <= s[i] <= 'z') ==> upper(s)[i] == s[i],
{
}

/// Texts are the same in any case where their small spellings are.
pub proof fn case_does_not_count(a: Seq<char>, b: Seq<char>)
    ensures
        same_ignoring_case(a, b) <==> lower(a) == lower(b),
        same_ignoring_case(a, b) ==> a.len() == b.len(),
{
    assert(lower(a).len() == a.len());
    assert(lower(b).len() == b.len());
}

/// What a list of strings and an optional string hold is what stands in them.
pub proof fn texts_are_what_stands_in_strings(
    list: Seq<String>,
    names: Seq<&'static str>,
    o: Option<String>,
    r: Option<&str>,
    t: Option<Seq<char>>,
    i: int,
)
    ensures
        texts(list).len() == list.len(),
        0 <= i < list.len() ==> texts(list)[i] == list[i]@,
        names_of(names).len() == names.len(),
        0 <= i < names.len() ==> names_of(names)[i] == names[i]@,
        text_of(o) is Some <==> o is Some,
        o is Some ==> text_of(o)->0 == o->0@,
        text_of_ref(r) is Some <==> r is Some,
        r is Some ==> text_of_ref(r)->0 == r->0@,
        or_empty(t).len() == 0 <==> t is None || t->0.len() == 0,
        t is Some ==> or_empty(t) == t->0,
{
}

/// An identifier is made of letters, digits and underscores, and of no more than 160.
pub proof fn identifiers_are_words(s: Seq<char>)
    ensures
        is_identifier(s) <==> 1 <= s.len() <= 160 && forall|i: int|
            0 <= i < s.len() ==> {
                let c = #[trigger] s[i];
                'a' <= c <= 'z' || 'A' <= c <= 'Z' || '0' <= c <= '9' || c == '_'
            },
{
}

/// A text holds another where it can be cut so that the other stands between the
/// pieces.
pub proof fn texts_hold_what_stands_in_them(s: Seq<char>, needle: Seq<char>)
    ensures
        has_text(s, needle) <==> exists|at: int|
            0 <= at && at + needle.len() <= s.len() && #[trigger] s.subrange(
                at,
                at + needle.len(),
            ) == needle,
{
    if has_text(s, needle) {
        let at = choose|at: int| crate::text::has_at(s, needle, at);
        assert(s.subrange(at, at + needle.len()) == needle);
    }
    if exists|at: int|
        0 <= at && at + needle.len() <= s.len() && #[trigger] s.subrange(at, at + needle.len())
            == needle {
        let at = choose|at: int|
            0 <= at && at + needle.len() <= s.len() && #[trigger] s.subrange(
                at,
                at + needle.len(),
            ) == needle;
        assert(crate::text::has_at(s, needle, at));
    }
}

/// A text is a sys_id where it is 32 hexadecimal digits, blanks around it aside; its
/// normal spelling has them in small letters.
pub proof fn sys_ids_are_hexadecimal(s: Seq<char>)
    ensures
        sys_id_of(s) is Some <==> trim(s).len() == 32 && forall|i: int|
            0 <= i < 32 ==> {
                let c = #[trigger] trim(s)[i];
                '0' <= c <= '9' || 'a' <= c <= 'f' || 'A' <= c <= 'F'
            },
        sys_id_of(s) is Some ==> sys_id_of(s)->0 == lower(trim(s)),
{
    let t = trim(s);
    let l = lower(t);
    assert(l.len() == t.len());
    if sys_id_of(s) is Some {
        assert forall|i: int| 0 <= i < 32 implies {
            let c = #[trigger] t[i];
            '0' <= c <= '9' || 'a' <= c <= 'f' || 'A' <= c <= 'F'
        } by {
            assert(l[i] == lower_char(t[i]));
            assert(crate::text::is_hex(l[i]));
        }
    } else if t.len() == 32 {
        assert(!crate::tables::is_sys_id(l));
        let i = choose|i: int| 0 <= i < l.len() && !crate::text::is_hex(#[trigger] l[i]);
        assert(l[i] == lower_char(t[i]));
        let c = t[i];
    }
}

/// Numbers are written in decimal digits: the digits of a number write that number, and
/// no digit stands in front of them for nothing.
pub proof fn digits_write_their_number(n: nat)
    ensures
        all_digits(decimal(n)),
        decimal(n).len() > 0,
        digits_value(decimal(n)) == n,
        decimal(n).len() > 1 ==> decimal(n)[0] != '0',
        n <= u64::MAX ==> number_of(decimal(n)) == Some(n as u64),
    decreases n,
{
    if n < 10 {
        assert(decimal(n) =~= seq![digit_char(n as int)]);
        let d = decimal(n);
        assert(d.drop_last() =~= Seq::empty());
        assert(digits_value(Seq::<char>::empty()) == 0);
    } else {
        digits_write_their_number(n / 10);
        let front = decimal(n / 10);
        let d = decimal(n);
        assert(d =~= front.push(digit_char((n % 10) as int)));
        assert(d.drop_last() =~= front);
        assert forall|i: int| 0 <= i < d.len() implies is_digit(#[trigger] d[i]) by {
            if i < front.len() {
                assert(d[i] == front[i]);
            }
        }
        assert(d[0] == front[0]);
        if n / 10 < 10 {
            assert(front =~= seq![digit_char((n / 10) as int)]);
            assert(n / 10 >= 1);
        } else {
            digits_write_their_number(n / 10 / 10);
        }
    }
    assert(is_digit(decimal(n)[0]));
    assert(unsigned_part(decimal(n)) == decimal(n));
}

/// A text is read as a number where it is decimal digits, with or without a plus sign,
/// and the number fits 64 bits.
pub proof fn numbers_are_digits(s: Seq<char>, d: Seq<char>)
    requires
        d == (if s.len() > 0 && s[0] == '+' {
            s.subrange(1, s.len() as int)
        } else {
            s
        }),
    ensures
        number_of(s) is Some <==> d.len() > 0 && digits_value(d) <= u64::MAX && forall|i: int|
            0 <= i < d.len() ==> '0' <= #[trigger] d[i] <= '9',
        number_of(s) is Some ==> digits_value(d) == number_of(s)->0,
{
    assert(d == unsigned_part(s));
    if all_digits(d) {
        assert forall|i: int| 0 <= i < d.len() implies '0' <= #[trigger] d[i] <= '9' by {
            assert(is_digit(d[i]));
        }
    } else {
        let i = choose|i: int| 0 <= i < d.len() && !is_digit(#[trigger] d[i]);
        assert(!('0' <= d[i] <= '9'));
    }
}

/// The value of digits: each further digit counts one, and all before it ten times more.
pub proof fn digits_count_by_tens(s: Seq<char>, c: char)
    requires
        is_digit(c),
    ensures
        digits_value(Seq::<char>::empty()) == 0,
        digits_value(s.push(c)) == 10 * digits_value(s) + (c as u32 - 48),
{
    assert(s.push(c).drop_last() =~= s);
}

} // verus!
