//! Laws of cutting texts into pieces.
use vstd::prelude::*;

use crate::split::{first_at, parted, pieces, Separator};
use crate::text::has_at;

verus! {

/// What each separator cuts at.
pub proof fn separators_cut_at_their_characters(c: char)
    ensures
        Separator::Caret.cuts(c) <==> c == '^',
        Separator::TagEnd.cuts(c) <==> c == ',' || c == ';' || c == '\n',
        Separator::NonAlphanumeric.cuts(c) <==> !('a' <= c <= 'z' || 'A' <= c <= 'Z' || '0' <= c
            <= '9'),
        Separator::Slash.cuts(c) <==> c == '/',
{
}

/// No piece of a text holds a separator, and there is one more piece than there are
/// separators; a text without any is its only piece.
pub proof fn pieces_hold_no_separator(s: Seq<char>, at: Separator)
    ensures
        pieces(s, at).len() == 1 + s.filter(|c: char| at.cuts(c)).len(),
        forall|i: int, k: int|
            0 <= i < pieces(s, at).len() && 0 <= k < pieces(s, at)[i].len() ==> !at.cuts(
                #[trigger] pieces(s, at)[i][k],
            ),
        (forall|i: int| 0 <= i < s.len() ==> !at.cuts(#[trigger] s[i])) ==> pieces(s, at)
            == seq![s],
    decreases s.len(),
{
    reveal(Seq::filter);
    if s.len() == 0 {
        assert(pieces(s, at)[0] =~= s);
    } else {
        let front = s.drop_last();
        let before = pieces(front, at);
        pieces_hold_no_separator(front, at);
        if at.cuts(s.last()) {
            assert forall|i: int, k: int|
                0 <= i < pieces(s, at).len() && 0 <= k < pieces(s, at)[i].len() implies !at.cuts(
                #[trigger] pieces(s, at)[i][k],
            ) by {
                if i < before.len() {
                    assert(pieces(s, at)[i] == before[i]);
                }
            }
            assert(at.cuts(s[s.len() - 1]));
        } else {
            assert forall|i: int, k: int|
                0 <= i < pieces(s, at).len() && 0 <= k < pieces(s, at)[i].len() implies !at.cuts(
                #[trigger] pieces(s, at)[i][k],
            ) by {
                if i < before.len() - 1 {
                    assert(pieces(s, at)[i] == before[i]);
                } else {
                    assert(pieces(s, at)[i] == before.last().push(s.last()));
                    if k < before.last().len() {
                        assert(!at.cuts(before[before.len() - 1][k]));
                    }
                }
            }
            if forall|i: int| 0 <= i < s.len() ==> !at.cuts(#[trigger] s[i]) {
                assert forall|i: int| 0 <= i < front.len() implies !at.cuts(#[trigger] front[i]) by {
                    assert(front[i] == s[i]);
                }
                assert(before == seq![front]);
                assert(front.push(s.last()) =~= s);
                assert(pieces(s, at) =~= seq![s]);
            }
        }
    }
}

/// Two texts with a separator between them are cut into the pieces of the one and
/// those of the other.
pub proof fn texts_are_cut_where_they_are_joined(a: Seq<char>, c: char, b: Seq<char>, at: Separator)
    requires
        at.cuts(c),
    ensures
        pieces(a.push(c) + b, at) == pieces(a, at) + pieces(b, at),
    decreases b.len(),
{
    lemma_some_piece(b, at);
    if b.len() == 0 {
        assert(a.push(c) + b =~= a.push(c));
        assert(a.push(c).drop_last() =~= a);
        assert(pieces(a, at) + pieces(b, at) =~= pieces(a, at).push(Seq::empty()));
    } else {
        let front = b.drop_last();
        let whole = a.push(c) + b;
        texts_are_cut_where_they_are_joined(a, c, front, at);
        lemma_some_piece(front, at);
        assert(whole.drop_last() =~= a.push(c) + front);
        assert(whole.last() == b.last());
        assert(pieces(whole, at) =~= pieces(a, at) + pieces(b, at));
    }
}

proof fn lemma_some_piece(s: Seq<char>, at: Separator)
    ensures
        pieces(s, at).len() > 0,
    decreases s.len(),
{
    if s.len() > 0 {
        lemma_some_piece(s.drop_last(), at);
    }
}

proof fn lemma_first(s: Seq<char>, needle: Seq<char>, i: int)
    requires
        0 <= i,
    ensures
        first_at(s, needle, i) is None <==> forall|k: int| i <= k ==> !#[trigger] has_at(s, needle, k),
        first_at(s, needle, i) is Some ==> {
            let at = first_at(s, needle, i)->0;
            i <= at && has_at(s, needle, at) && forall|k: int|
                i <= k < at ==> !#[trigger] has_at(s, needle, k)
        },
    decreases s.len() - i + 1,
{
    if i <= s.len() && !has_at(s, needle, i) {
        lemma_first(s, needle, i + 1);
        if first_at(s, needle, i + 1) is None {
            assert forall|k: int| i <= k implies !#[trigger] has_at(s, needle, k) by {
            }
        }
    }
}

/// A text is parted at the first place where the needle stands: what comes before it
/// and behind it make up the text again, and nowhere before does the needle stand. A
/// text without the needle is not parted.
pub proof fn texts_are_parted_at_the_first_needle(s: Seq<char>, needle: Seq<char>)
    ensures
        parted(s, needle) is None <==> forall|k: int| 0 <= k ==> !#[trigger] has_at(s, needle, k),
        parted(s, needle) is Some ==> {
            let (a, b) = parted(s, needle)->0;
            &&& s == a + needle + b
            &&& forall|k: int| 0 <= k < a.len() ==> !#[trigger] has_at(s, needle, k)
        },
{
    lemma_first(s, needle, 0);
    if parted(s, needle) is Some {
        let (a, b) = parted(s, needle)->0;
        let at = first_at(s, needle, 0)->0;
        assert(s.subrange(at, at + needle.len()) == needle);
        assert(s =~= a + needle + b);
    }
}

/// A text is parted at the place where the needle stands first.
pub proof fn the_first_needle_parts(s: Seq<char>, needle: Seq<char>, at: int)
    requires
        has_at(s, needle, at),
        forall|k: int| 0 <= k < at ==> !#[trigger] has_at(s, needle, k),
    ensures
        parted(s, needle) == Some(
            (s.subrange(0, at), s.subrange(at + needle.len(), s.len() as int)),
        ),
{
    lemma_first(s, needle, 0);
}

} // verus!
