//! Cutting texts into pieces.
use vstd::prelude::*;
use vstd::string::*;

use crate::text::{chars_of, has_at, is_digit, is_letter, lemma_texts_push, run_matches, slice_string, texts};

verus! {

/// What a text is cut at.
#[derive(Clone, Copy, Debug, PartialEq, Eq, Structural)]
pub enum Separator {
    /// `^`, between the terms of an encoded query.
    Caret,
    /// `,`, `;` and the line feed, between the tags of a field.
    TagEnd,
    /// Whatever is neither an ASCII letter nor a digit.
    NonAlphanumeric,
    /// `/`, between the parts of a path.
    Slash,
}

impl Separator {
    pub open spec fn cuts(self, c: char) -> bool {
        match self {
            Separator::Caret => c == '^',
            Separator::TagEnd => c == ',' || c == ';' || c == '\n',
            Separator::NonAlphanumeric => !is_letter(c) && !is_digit(c),
            Separator::Slash => c == '/',
        }
    }

    pub fn is_cut(self, c: char) -> (r: bool)
        ensures
            r == self.cuts(c),
    {
        match self {
            Separator::Caret => c == '^',
            Separator::TagEnd => c == ',' || c == ';' || c == '\n',
            Separator::NonAlphanumeric => !(('A' <= c && c <= 'Z') || ('a' <= c && c <= 'z') || ('0'
                <= c && c <= '9')),
            Separator::Slash => c == '/',
        }
    }
}

/// The pieces between the separators; the separators are left out, and two in a
/// row have an empty piece between them.
pub open spec fn pieces(s: Seq<char>, at: Separator) -> Seq<Seq<char>>
    decreases s.len(),
{
    if s.len() == 0 {
        seq![Seq::empty()]
    } else {
        let front = pieces(s.drop_last(), at);
        if at.cuts(s.last()) {
            front.push(Seq::empty())
        } else {
            front.drop_last().push(front.last().push(s.last()))
        }
    }
}

/// Cuts a text into pieces.
pub fn split_text(s: &str, at: Separator) -> (r: Vec<String>)
    ensures
        texts(r@) == pieces(s@, at),
{
    let v: Vec<char> = chars_of(s);
    let mut out: Vec<String> = Vec::new();
    let mut current: String = String::new();
    let mut i: usize = 0;
    assert(texts(out@).push(current@) =~= pieces(v@.subrange(0, 0), at));
    while i < v.len()
        invariant
            i <= v@.len(),
            texts(out@).push(current@) == pieces(v@.subrange(0, i as int), at),
        decreases v@.len() - i,
    {
        let c: char = v[i];
        proof {
            let longer = v@.subrange(0, i + 1);
            assert(longer.drop_last() =~= v@.subrange(0, i as int));
            assert(longer.last() == c);
            assert(texts(out@).push(current@).drop_last() =~= texts(out@));
        }
        if at.is_cut(c) {
            proof {
                lemma_texts_push(out@, current);
            }
            out.push(current);
            current = String::new();
            assert(current@ =~= Seq::<char>::empty());
        } else {
            current.push(c);
        }
        i += 1;
    }
    proof {
        assert(v@.subrange(0, i as int) =~= s@);
        lemma_texts_push(out@, current);
    }
    out.push(current);
    out
}

/// The first place at or behind `i` where `needle` stands.
pub open spec fn first_at(s: Seq<char>, needle: Seq<char>, i: int) -> Option<int>
    decreases s.len() - i + 1,
{
    if i > s.len() {
        None
    } else if has_at(s, needle, i) {
        Some(i)
    } else {
        first_at(s, needle, i + 1)
    }
}

/// What stands before and behind the first occurrence of `needle`.
pub open spec fn parted(s: Seq<char>, needle: Seq<char>) -> Option<(Seq<char>, Seq<char>)> {
    match first_at(s, needle, 0) {
        Some(i) => Some((s.subrange(0, i), s.subrange(i + needle.len(), s.len() as int))),
        None => None,
    }
}

/// Parts a text at the first occurrence of `needle`.
pub fn split_once(s: &str, needle: &str) -> (r: Option<(String, String)>)
    ensures
        match r {
            Some((a, b)) => parted(s@, needle@) == Some((a@, b@)),
            None => parted(s@, needle@) is None,
        },
{
    let v: Vec<char> = chars_of(s);
    let n: Vec<char> = chars_of(needle);
    if n.len() > v.len() {
        proof {
            lemma_too_long(s@, needle@, 0);
        }
        return None;
    }
    let last: usize = v.len() - n.len();
    let mut i: usize = 0;
    loop
        invariant
            v@ == s@,
            n@ == needle@,
            n@.len() <= v@.len(),
            last == v@.len() - n@.len(),
            i <= last,
            first_at(s@, needle@, 0) == first_at(s@, needle@, i as int),
        decreases last - i,
    {
        if run_matches(&v, i, &n) {
            let a: String = slice_string(&v, 0, i);
            let whole: usize = v.len();
            let b: String = slice_string(&v, i + n.len(), whole);
            return Some((a, b));
        }
        if i == last {
            proof {
                lemma_too_long(s@, needle@, i + 1);
            }
            return None;
        }
        i += 1;
    }
}

proof fn lemma_too_long(s: Seq<char>, needle: Seq<char>, i: int)
    requires
        i + needle.len() > s.len(),
        i >= 0,
    ensures
        first_at(s, needle, i) is None,
    decreases s.len() - i + 1,
{
    if i <= s.len() {
        lemma_too_long(s, needle, i + 1);
    }
}

} // verus!
