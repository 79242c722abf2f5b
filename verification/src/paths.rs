//! Paths of the vault, written with `/` between their parts. An empty part and the
//! part `.` stand for nothing, save at the very start.
use vstd::prelude::*;
use vstd::string::*;

use crate::listing::{lemma_filter_ends, lemma_filter_step};
use crate::markdown::{join_texts, joined_with};
use crate::split::{pieces, split_text, Separator};
use crate::text::{same, text_of, texts};

verus! {

/// Where a path starts: at the root, at `.`, or right with its first part.
#[derive(Clone, Copy, Debug, PartialEq, Eq, Structural)]
pub enum PathStart {
    Root,
    Here,
    Plain,
}

/// A part that stands for nothing.
pub open spec fn is_idle(part: Seq<char>) -> bool {
    part.len() == 0 || part == "."@
}

pub open spec fn counts() -> spec_fn(Seq<char>) -> bool {
    |part: Seq<char>| !is_idle(part)
}

/// The parts that stand for something.
pub open spec fn path_parts(path: Seq<char>) -> Seq<Seq<char>> {
    pieces(path, Separator::Slash).filter(counts())
}

pub open spec fn start_of(path: Seq<char>) -> PathStart {
    if path.len() == 0 {
        PathStart::Plain
    } else if pieces(path, Separator::Slash)[0].len() == 0 {
        PathStart::Root
    } else if pieces(path, Separator::Slash)[0] == "."@ {
        PathStart::Here
    } else {
        PathStart::Plain
    }
}

/// What is left behind the first parts, from the next part on.
pub open spec fn behind_parts(list: Seq<Seq<char>>, count: nat) -> Seq<Seq<char>>
    decreases list.len(),
{
    if list.len() == 0 {
        list
    } else if is_idle(list[0]) {
        behind_parts(list.subrange(1, list.len() as int), count)
    } else if count == 0 {
        list
    } else {
        behind_parts(list.subrange(1, list.len() as int), (count - 1) as nat)
    }
}

/// The list without what stands for nothing at its end.
pub open spec fn without_idle_end(list: Seq<Seq<char>>) -> Seq<Seq<char>>
    decreases list.len(),
{
    if list.len() > 0 && is_idle(list.last()) {
        without_idle_end(list.drop_last())
    } else {
        list
    }
}

pub open spec fn begins_with(list: Seq<Seq<char>>, first: Seq<Seq<char>>) -> bool {
    first.len() <= list.len() && list.subrange(0, first.len() as int) == first
}

/// A path without what stands for nothing at its end.
pub open spec fn tidy_path(path: Seq<char>) -> Seq<char> {
    if path_parts(path).len() > 0 {
        joined_with(without_idle_end(pieces(path, Separator::Slash)), "/"@)
    } else {
        match start_of(path) {
            PathStart::Root => "/"@,
            PathStart::Here => "."@,
            PathStart::Plain => ""@,
        }
    }
}

/// A path as seen from a directory: what follows the parts of the directory, where
/// both start alike and the path has those parts first.
pub open spec fn path_below(path: Seq<char>, root: Seq<char>) -> Option<Seq<char>> {
    if root.len() == 0 {
        Some(tidy_path(path))
    } else if start_of(path) == start_of(root) && begins_with(path_parts(path), path_parts(root)) {
        Some(
            joined_with(
                without_idle_end(
                    behind_parts(pieces(path, Separator::Slash), path_parts(root).len()),
                ),
                "/"@,
            ),
        )
    } else {
        None
    }
}

fn idle_part(part: &str) -> (r: bool)
    ensures
        r == is_idle(part@),
{
    part.unicode_len() == 0 || same(part, ".")
}

fn parts_of(list: &Vec<String>) -> (r: Vec<String>)
    ensures
        texts(r@) == texts(list@).filter(counts()),
{
    let ghost all = texts(list@);
    let mut out: Vec<String> = Vec::new();
    let mut i: usize = 0;
    proof {
        lemma_filter_ends(all, counts());
        assert(texts(out@) =~= Seq::empty());
    }
    while i < list.len()
        invariant
            i <= list@.len(),
            all == texts(list@),
            texts(out@) == all.subrange(0, i as int).filter(counts()),
        decreases list@.len() - i,
    {
        let ghost before = texts(out@);
        proof {
            lemma_filter_step(all, counts(), i as int);
            assert(all[i as int] == list@[i as int]@);
        }
        if !idle_part(list[i].as_str()) {
            out.push(list[i].clone());
            assert(texts(out@) =~= before.push(all[i as int]));
        }
        i += 1;
    }
    assert(all.subrange(0, i as int) =~= all);
    out
}

fn same_first(list: &Vec<String>, first: &Vec<String>) -> (r: bool)
    ensures
        r == begins_with(texts(list@), texts(first@)),
{
    if first.len() > list.len() {
        return false;
    }
    let ghost head = texts(list@).subrange(0, first@.len() as int);
    let mut i: usize = 0;
    while i < first.len()
        invariant
            i <= first@.len() <= list@.len(),
            head == texts(list@).subrange(0, first@.len() as int),
            forall|k: int| 0 <= k < i ==> #[trigger] head[k] == texts(first@)[k],
        decreases first@.len() - i,
    {
        if !same(list[i].as_str(), first[i].as_str()) {
            assert(head[i as int] != texts(first@)[i as int]);
            return false;
        }
        assert(head[i as int] == texts(first@)[i as int]);
        i += 1;
    }
    assert(head =~= texts(first@));
    true
}

fn path_start(path: &str, list: &Vec<String>) -> (r: PathStart)
    requires
        texts(list@) == pieces(path@, Separator::Slash),
        list@.len() > 0,
    ensures
        r == start_of(path@),
{
    assert(texts(list@)[0] == list@[0]@);
    if path.unicode_len() == 0 {
        PathStart::Plain
    } else if list[0].as_str().unicode_len() == 0 {
        PathStart::Root
    } else if same(list[0].as_str(), ".") {
        PathStart::Here
    } else {
        PathStart::Plain
    }
}

/// The texts of a list between two indices.
fn texts_between(list: &Vec<String>, from: usize, to: usize) -> (r: Vec<String>)
    requires
        from <= to <= list@.len(),
    ensures
        texts(r@) == texts(list@).subrange(from as int, to as int),
{
    let ghost all = texts(list@);
    let mut out: Vec<String> = Vec::new();
    let mut i: usize = from;
    assert(texts(out@) =~= all.subrange(from as int, from as int));
    while i < to
        invariant
            from <= i <= to <= list@.len(),
            all == texts(list@),
            texts(out@) == all.subrange(from as int, i as int),
        decreases to - i,
    {
        let ghost before = texts(out@);
        out.push(list[i].clone());
        assert(texts(out@) =~= before.push(all[i as int]));
        assert(texts(out@) =~= all.subrange(from as int, i + 1));
        i += 1;
    }
    out
}

fn idle_end(list: &Vec<String>, from: usize) -> (to: usize)
    requires
        from <= list@.len(),
    ensures
        from <= to <= list@.len(),
        without_idle_end(texts(list@).subrange(from as int, list@.len() as int)) == texts(
            list@,
        ).subrange(from as int, to as int),
{
    let ghost all = texts(list@);
    let mut to: usize = list.len();
    while to > from && idle_part(list[to - 1].as_str())
        invariant
            from <= to <= list@.len(),
            all == texts(list@),
            without_idle_end(all.subrange(from as int, list@.len() as int)) == without_idle_end(
                all.subrange(from as int, to as int),
            ),
        ensures
            to == from || !is_idle(list@[to - 1]@),
        decreases to,
    {
        let ghost part = all.subrange(from as int, to as int);
        assert(part.last() == list@[to - 1]@);
        assert(part.drop_last() =~= all.subrange(from as int, to - 1));
        to -= 1;
    }
    proof {
        let part = all.subrange(from as int, to as int);
        if to > from {
            assert(part.last() == list@[to - 1]@);
        }
    }
    to
}

fn parts_end(list: &Vec<String>, count: usize) -> (from: usize)
    ensures
        from <= list@.len(),
        behind_parts(texts(list@), count as nat) == texts(list@).subrange(
            from as int,
            list@.len() as int,
        ),
{
    let ghost all = texts(list@);
    let mut from: usize = 0;
    let mut left: usize = count;
    assert(all.subrange(0, all.len() as int) =~= all);
    while from < list.len()
        invariant
            from <= list@.len(),
            all == texts(list@),
            behind_parts(all, count as nat) == behind_parts(
                all.subrange(from as int, all.len() as int),
                left as nat,
            ),
        decreases list@.len() - from,
    {
        let ghost rest = all.subrange(from as int, all.len() as int);
        assert(rest[0] == list@[from as int]@);
        assert(rest.subrange(1, rest.len() as int) =~= all.subrange(from + 1, all.len() as int));
        if !idle_part(list[from].as_str()) {
            if left == 0 {
                return from;
            }
            left -= 1;
        }
        from += 1;
    }
    assert(all.subrange(from as int, all.len() as int) =~= Seq::empty());
    from
}

proof fn lemma_pieces_not_empty(s: Seq<char>, at: Separator)
    ensures
        pieces(s, at).len() > 0,
    decreases s.len(),
{
    if s.len() > 0 {
        lemma_pieces_not_empty(s.drop_last(), at);
    }
}

/// The path as seen from a directory, or nothing where it does not lie below it.
pub fn strip_root(path: &str, root: &str) -> (r: Option<String>)
    ensures
        text_of(r) == path_below(path@, root@),
{
    proof {
        lemma_pieces_not_empty(path@, Separator::Slash);
        lemma_pieces_not_empty(root@, Separator::Slash);
    }
    let list: Vec<String> = split_text(path, Separator::Slash);
    let parts: Vec<String> = parts_of(&list);
    let start: PathStart = path_start(path, &list);
    if root.unicode_len() == 0 {
        if parts.len() == 0 {
            return match start {
                PathStart::Root => Some("/".to_owned()),
                PathStart::Here => Some(".".to_owned()),
                PathStart::Plain => Some("".to_owned()),
            };
        }
        let to: usize = idle_end(&list, 0);
        assert(texts(list@).subrange(0, list@.len() as int) =~= texts(list@));
        return Some(join_texts(&texts_between(&list, 0, to), "/"));
    }
    let root_list: Vec<String> = split_text(root, Separator::Slash);
    let root_parts: Vec<String> = parts_of(&root_list);
    if start != path_start(root, &root_list) || !same_first(&parts, &root_parts) {
        return None;
    }
    let from: usize = parts_end(&list, root_parts.len());
    let to: usize = idle_end(&list, from);
    Some(join_texts(&texts_between(&list, from, to), "/"))
}

} // verus!
