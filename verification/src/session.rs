//! Sessions: states that are kept under a token for a limited time. Time is a
//! number of milliseconds on a clock that never runs backwards.
use vstd::prelude::*;

use crate::text::{same};

verus! {

/// How long a session outlives its last use.
pub const SESSION_TTL_MS: u64 = 300_000;

/// One kept state.
pub struct Session<S> {
    pub token: String,
    pub touched: u64,
    pub state: S,
}

/// The sessions in the order in which they were opened.
pub struct Sessions<S> {
    pub entries: Vec<Session<S>>,
}

/// Whether a session that was last used at `touched` is still there at `now`.
pub open spec fn is_live(touched: u64, now: u64) -> bool {
    now - touched < SESSION_TTL_MS
}

pub open spec fn live_entry<S>(now: u64) -> spec_fn(Session<S>) -> bool {
    |e: Session<S>| is_live(e.touched, now)
}

pub open spec fn other_token<S>(token: Seq<char>) -> spec_fn(Session<S>) -> bool {
    |e: Session<S>| e.token@ != token
}

pub open spec fn tokens<S>(entries: Seq<Session<S>>) -> Seq<Seq<char>> {
    entries.map_values(|e: Session<S>| e.token@)
}

impl<S> Sessions<S> {
    /// No two sessions share a token.
    pub open spec fn well_formed(self) -> bool {
        tokens(self.entries@).no_duplicates()
    }

    /// The position of the session under a token.
    pub open spec fn position(self, token: Seq<char>) -> Option<int> {
        if tokens(self.entries@).contains(token) {
            Some(tokens(self.entries@).index_of(token))
        } else {
            None
        }
    }

    pub fn new() -> (r: Sessions<S>)
        ensures
            r.entries@ == Seq::<Session<S>>::empty(),
            r.well_formed(),
    {
        Sessions { entries: Vec::new() }
    }

    /// Drops the sessions that have expired.
    pub fn expire(&mut self, now: u64)
        requires
            old(self).well_formed(),
        ensures
            final(self).entries@ == old(self).entries@.filter(live_entry(now)),
            final(self).well_formed(),
    {
        let ghost all = self.entries@;
        let mut kept: Vec<Session<S>> = Vec::new();
        let mut rest: Vec<Session<S>> = Vec::new();
        std::mem::swap(&mut rest, &mut self.entries);
        let ghost mut done: int = 0;
        assert(all.subrange(0, 0) =~= Seq::empty());
        assert(all.subrange(0, all.len() as int) =~= all);
        while rest.len() > 0
            invariant
                0 <= done <= all.len(),
                rest@ == all.subrange(done, all.len() as int),
                kept@ == all.subrange(0, done).filter(live_entry(now)),
            decreases rest@.len(),
        {
            let entry: Session<S> = rest.remove(0);
            proof {
                assert(entry == all[done]);
                let longer = all.subrange(0, done + 1);
                assert(longer.drop_last() =~= all.subrange(0, done));
                assert(longer.last() == entry);
                reveal(Seq::filter);
                done = done + 1;
                assert(rest@ =~= all.subrange(done, all.len() as int));
            }
            if now < entry.touched || now - entry.touched < SESSION_TTL_MS {
                kept.push(entry);
            }
        }
        assert(all.subrange(0, done) =~= all);
        self.entries = kept;
        proof {
            lemma_filter_keeps_distinct(all, live_entry(now));
        }
    }

    /// The position of the session under a token.
    pub fn find(&self, token: &str) -> (r: Option<usize>)
        requires
            self.well_formed(),
        ensures
            match r {
                Some(i) => i < self.entries@.len() && self.position(token@) == Some(i as int)
                    && self.entries@[i as int].token@ == token@,
                None => self.position(token@) is None,
            },
    {
        let mut i: usize = 0;
        while i < self.entries.len()
            invariant
                i <= self.entries@.len(),
                self.well_formed(),
                forall|j: int| 0 <= j < i ==> #[trigger] tokens(self.entries@)[j] != token@,
            decreases self.entries@.len() - i,
        {
            assert(tokens(self.entries@)[i as int] == self.entries@[i as int].token@);
            if same(self.entries[i].token.as_str(), token) {
                proof {
                    lemma_index(tokens(self.entries@), token@, i as int);
                }
                return Some(i);
            }
            i += 1;
        }
        assert(!tokens(self.entries@).contains(token@));
        None
    }

    /// Ends the session under a token.
    pub fn remove(&mut self, token: &str)
        requires
            old(self).well_formed(),
        ensures
            final(self).entries@ == old(self).entries@.filter(other_token(token@)),
            final(self).well_formed(),
    {
        let ghost all = self.entries@;
        match self.find(token) {
            Some(i) => {
                let dropped: Session<S> = self.entries.remove(i);
                proof {
                    lemma_filter_one(all, token@, i as int);
                    lemma_filter_keeps_distinct(all, other_token(token@));
                }
            },
            None => {
                proof {
                    lemma_filter_none(all, token@);
                }
            },
        }
    }

    /// Keeps a state under a token; a session under the same token is replaced.
    pub fn put(&mut self, token: String, touched: u64, state: S)
        requires
            old(self).well_formed(),
        ensures
            final(self).entries@ == placed(
                *old(self),
                Session { token, touched, state },
            ),
            final(self).well_formed(),
    {
        let ghost before = self.entries@;
        let ghost fresh = Session { token, touched, state };
        match self.find(token.as_str()) {
            Some(i) => {
                self.entries[i] = Session { token, touched, state };
                assert(tokens(self.entries@) =~= tokens(before));
            },
            None => {
                self.entries.push(Session { token, touched, state });
                proof {
                    let after = tokens(self.entries@);
                    assert(after =~= tokens(before).push(fresh.token@));
                    assert forall|i: int, j: int| 0 <= i < after.len() && 0 <= j < after.len() && i
                        != j implies after[i] != after[j] by {
                        if i == before.len() {
                            assert(tokens(before).contains(tokens(before)[j]));
                        } else if j == before.len() {
                            assert(tokens(before).contains(tokens(before)[i]));
                        }
                    }
                }
            },
        }
    }
}

/// The sessions with one more, which takes the place of one under the same token.
pub open spec fn placed<S>(sessions: Sessions<S>, fresh: Session<S>) -> Seq<Session<S>> {
    match sessions.position(fresh.token@) {
        Some(i) => sessions.entries@.update(i, fresh),
        None => sessions.entries@.push(fresh),
    }
}

proof fn lemma_index(s: Seq<Seq<char>>, t: Seq<char>, i: int)
    requires
        0 <= i < s.len(),
        s[i] == t,
        s.no_duplicates(),
    ensures
        s.contains(t),
        s.index_of(t) == i,
{
    let k = s.index_of(t);
    assert(0 <= k < s.len() && s[k] == t);
}

pub proof fn lemma_filter_keeps_distinct<S>(all: Seq<Session<S>>, keep: spec_fn(Session<S>) -> bool)
    requires
        tokens(all).no_duplicates(),
    ensures
        tokens(all.filter(keep)).no_duplicates(),
        forall|t: Seq<char>| #[trigger]
            tokens(all.filter(keep)).contains(t) ==> tokens(all).contains(t),
    decreases all.len(),
{
    reveal(Seq::filter);
    if all.len() > 0 {
        let front = all.drop_last();
        assert(tokens(front) =~= tokens(all).drop_last());
        lemma_filter_keeps_distinct(front, keep);
        let kept = all.filter(keep);
        assert forall|t: Seq<char>| #[trigger] tokens(kept).contains(t) implies tokens(
            all,
        ).contains(t) by {
            let k = choose|k: int| 0 <= k < kept.len() && tokens(kept)[k] == t;
            if k < front.filter(keep).len() {
                assert(tokens(front.filter(keep))[k] == t);
                assert(tokens(front.filter(keep)).contains(t));
                let m = choose|m: int| 0 <= m < front.len() && tokens(front)[m] == t;
                assert(tokens(all)[m] == t);
            } else {
                assert(tokens(all)[all.len() - 1] == t);
            }
        }
        if keep(all.last()) {
            assert(tokens(kept) =~= tokens(front.filter(keep)).push(all.last().token@));
            assert forall|i: int, j: int| 0 <= i < kept.len() && 0 <= j < kept.len() && i
                != j implies tokens(kept)[i] != tokens(kept)[j] by {
                let last = kept.len() - 1;
                if i == last || j == last {
                    let k = if i == last {
                        j
                    } else {
                        i
                    };
                    assert(tokens(front.filter(keep)).contains(tokens(front.filter(keep))[k]));
                    let m = choose|m: int|
                        0 <= m < front.len() && tokens(front)[m] == tokens(front.filter(keep))[k];
                    assert(tokens(all)[m] == tokens(kept)[k]);
                    assert(tokens(all)[all.len() - 1] == all.last().token@);
                }
            }
        }
    }
}

proof fn lemma_filter_none<S>(all: Seq<Session<S>>, token: Seq<char>)
    requires
        !tokens(all).contains(token),
    ensures
        all.filter(other_token(token)) == all,
    decreases all.len(),
{
    reveal(Seq::filter);
    if all.len() > 0 {
        assert(tokens(all.drop_last()) =~= tokens(all).drop_last());
        assert forall|i: int| 0 <= i < all.len() - 1 implies tokens(all.drop_last())[i]
            != token by {
            assert(tokens(all).contains(tokens(all)[i]));
        }
        lemma_filter_none(all.drop_last(), token);
        assert(tokens(all).contains(tokens(all)[all.len() - 1]));
        assert(all.drop_last().push(all.last()) =~= all);
    }
}

proof fn lemma_filter_one<S>(all: Seq<Session<S>>, token: Seq<char>, at: int)
    requires
        tokens(all).no_duplicates(),
        0 <= at < all.len(),
        all[at].token@ == token,
    ensures
        all.filter(other_token(token)) == all.remove(at),
    decreases all.len(),
{
    reveal(Seq::filter);
    let front = all.drop_last();
    assert(tokens(front) =~= tokens(all).drop_last());
    if at == all.len() - 1 {
        assert(!tokens(front).contains(token)) by {
            if tokens(front).contains(token) {
                let k = choose|k: int| 0 <= k < front.len() && tokens(front)[k] == token;
                assert(tokens(all)[k] == token);
                assert(tokens(all)[at] == token);
            }
        }
        lemma_filter_none(front, token);
        assert(all.remove(at) =~= front);
    } else {
        lemma_filter_one(front, token, at);
        assert(tokens(all)[at] == token);
        assert(tokens(all)[all.len() - 1] == all.last().token@);
        assert(front.remove(at).push(all.last()) =~= all.remove(at));
    }
}

} // verus!
