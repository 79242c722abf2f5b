//! The lookup of one user from end to end: each candidate is looked for in the
//! cache first, and at the provider where the cache has no answer.
use vstd::prelude::*;
use vstd::string::*;

use crate::query::{DisplayMode, Query, QueryView};
use crate::text::names_of;
use crate::user::{
    active_text, ambiguous_selector, candidate_views, judge_users, lookup_candidates, lookup_key,
    missing_selector, selector_count, too_many,
    user_lookup_cache_key, user_lookup_candidates, user_lookup_query, CandidateView, UserLookup,
    UserLookupCandidate, UserLookupResult, UserRecord, UserStep, USER_LOOKUP_FIELDS,
};

verus! {

pub open spec fn candidate_query(c: CandidateView, active: bool) -> QueryView {
    QueryView::of("sys_user"@).equals(c.field, c.value).equals("active"@, active_text(active)).fields(
        names_of(USER_LOOKUP_FIELDS@),
    ).display(DisplayMode::Both).limit(2)
}

/// What the cache has under each key: the users of an answer that it still
/// holds, or nothing.
pub type Cache = spec_fn(Seq<char>) -> Option<Seq<UserRecord>>;

/// The users that the provider answers each query with.
pub type Directory = spec_fn(QueryView) -> Seq<UserRecord>;

/// The user that is found, and by which column; or why none can be told.
pub type FoundUser = Result<Option<(Seq<char>, UserRecord)>, Seq<char>>;

/// What the users found for a candidate mean, where `otherwise` is what the
/// candidates behind it come to.
pub open spec fn meant_by(
    c: CandidateView,
    users: Seq<UserRecord>,
    cached: bool,
    otherwise: FoundUser,
) -> FoundUser {
    if users.len() == 0 {
        otherwise
    } else if users.len() == 1 {
        Ok(Some((c.field, users[0])))
    } else {
        Err(too_many(c, cached))
    }
}

/// What the candidates from `from` on come to, in order.
pub open spec fn user_in(
    cache: Cache,
    directory: Directory,
    candidates: Seq<CandidateView>,
    active: bool,
    from: int,
) -> FoundUser
    decreases candidates.len() - from,
{
    if from < 0 || from >= candidates.len() {
        Ok(None)
    } else {
        let c = candidates[from];
        let otherwise = user_in(cache, directory, candidates, active, from + 1);
        match cache(lookup_key(c.field, c.value, active)) {
            Some(users) => meant_by(c, users, true, otherwise),
            None => meant_by(c, directory(candidate_query(c, active)), false, otherwise),
        }
    }
}

/// A lookup under way: the candidates before `next` are done with.
pub struct UserCall {
    pub candidates: Vec<UserLookupCandidate>,
    pub active: bool,
    pub next: usize,
    /// Whether the cache had no answer on the candidate at `next`.
    pub live: bool,
    pub found: Option<UserLookupResult>,
}

/// What a lookup asks next.
pub enum UserRequest {
    /// What the cache holds under a key.
    Cached { key: String },
    /// What the provider has; `key` is where its answer is kept.
    Live { query: Query, key: String },
    Done,
}

impl UserCall {
    pub open spec fn well_formed(self) -> bool {
        self.next <= self.candidates@.len()
    }

    pub open spec fn is_over(self) -> bool {
        self.found is Some || self.next == self.candidates@.len()
    }

    pub open spec fn current(self) -> CandidateView {
        self.candidates@[self.next as int]@
    }

    pub open spec fn key(self) -> Seq<char> {
        lookup_key(self.current().field, self.current().value, self.active)
    }

    /// What the lookup comes to from here on.
    pub open spec fn comes_to(self, cache: Cache, directory: Directory) -> FoundUser {
        let all = candidate_views(self.candidates@);
        match self.found {
            Some(u) => Ok(Some((u.matched_by@, u.user))),
            None => if self.live && self.next < self.candidates@.len() {
                meant_by(
                    self.current(),
                    directory(candidate_query(self.current(), self.active)),
                    false,
                    user_in(cache, directory, all, self.active, self.next + 1),
                )
            } else {
                user_in(cache, directory, all, self.active, self.next as int)
            },
        }
    }

    pub open spec fn steps_left(self) -> int {
        if self.found is Some {
            0
        } else {
            2 * (self.candidates@.len() - self.next) - (if self.live {
                1int
            } else {
                0
            })
        }
    }

    pub fn start(lookup: &UserLookup) -> (r: Result<UserCall, String>)
        ensures
            if selector_count(*lookup) != 1 {
                r is Err && r->Err_0@ == (if selector_count(*lookup) == 0 {
                    missing_selector()
                } else {
                    ambiguous_selector()
                })
            } else {
                match lookup_candidates(*lookup) {
                    Err(e) => r is Err && r->Err_0@ == e,
                    Ok(all) => {
                        let active = match lookup.active {
                            Some(a) => a,
                            None => true,
                        };
                        r is Ok && r->Ok_0.well_formed() && r->Ok_0.active == active
                            && candidate_views(r->Ok_0.candidates@) == all && forall|
                            cache: Cache,
                            directory: Directory,
                        | #[trigger]
                            r->Ok_0.comes_to(cache, directory) == user_in(
                                cache,
                                directory,
                                all,
                                active,
                                0,
                            )
                    },
                }
            },
    {
        if let Err(e) = lookup.validate_selector() {
            return Err(e);
        }
        let candidates: Vec<UserLookupCandidate> = match user_lookup_candidates(lookup) {
            Ok(list) => list,
            Err(e) => {
                return Err(e);
            },
        };
        let active: bool = match lookup.active {
            Some(a) => a,
            None => true,
        };
        Ok(UserCall { candidates, active, next: 0, live: false, found: None })
    }

    pub fn request(&self) -> (r: UserRequest)
        requires
            self.well_formed(),
        ensures
            match r {
                UserRequest::Done => self.is_over(),
                UserRequest::Cached { key } => !self.is_over() && !self.live && key@ == self.key(),
                UserRequest::Live { query, key } => !self.is_over() && self.live && key@
                    == self.key() && query@ == candidate_query(self.current(), self.active),
            },
    {
        if self.found.is_some() || self.next == self.candidates.len() {
            return UserRequest::Done;
        }
        let c: &UserLookupCandidate = &self.candidates[self.next];
        let key: String = user_lookup_cache_key(c.field, c.value.as_str(), self.active);
        if self.live {
            UserRequest::Live { query: user_lookup_query(c, self.active), key }
        } else {
            UserRequest::Cached { key }
        }
    }

    fn judge(self, users: Vec<UserRecord>, cached: bool) -> (r: Result<UserCall, String>)
        requires
            self.well_formed(),
            !self.is_over(),
            self.live == !cached,
        ensures
            ({
                let otherwise = |cache: Cache, directory: Directory|
                    user_in(
                        cache,
                        directory,
                        candidate_views(self.candidates@),
                        self.active,
                        self.next + 1,
                    );
                match r {
                    Ok(next) => next.well_formed() && next.candidates == self.candidates
                        && next.active == self.active && next.steps_left() < self.steps_left()
                        && forall|cache: Cache, directory: Directory| #[trigger]
                        next.comes_to(cache, directory) == meant_by(
                            self.current(),
                            users@,
                            cached,
                            otherwise(cache, directory),
                        ),
                    Err(e) => users@.len() > 1 && e@ == too_many(self.current(), cached),
                }
            }),
    {
        let total: usize = self.candidates.len();
        assert(self.next < total);
        let after: usize = self.next + 1;
        match judge_users(&self.candidates[self.next], users, cached) {
            UserStep::Next => Ok(
                UserCall {
                    candidates: self.candidates,
                    active: self.active,
                    next: after,
                    live: false,
                    found: None,
                },
            ),
            UserStep::Found(result) => Ok(
                UserCall {
                    candidates: self.candidates,
                    active: self.active,
                    next: self.next,
                    live: self.live,
                    found: Some(result),
                },
            ),
            UserStep::Failed(e) => Err(e),
        }
    }

    /// Takes in what the cache holds.
    pub fn take_cached(self, held: Option<Vec<UserRecord>>) -> (r: Result<UserCall, String>)
        requires
            self.well_formed(),
            !self.is_over(),
            !self.live,
        ensures
            r is Ok ==> r->Ok_0.well_formed() && r->Ok_0.steps_left() < self.steps_left(),
            forall|cache: Cache, directory: Directory|
                cache(self.key()) == users_view(held) ==> (match r {
                    Ok(next) => next.comes_to(cache, directory),
                    Err(e) => Err(e@),
                }) == #[trigger] self.comes_to(cache, directory),
    {
        match held {
            Some(users) => {
                let r: Result<UserCall, String> = self.judge(users, true);
                proof {
                    assert forall|cache: Cache, directory: Directory|
                        cache(self.key()) == users_view(held) implies (match r {
                        Ok(next) => next.comes_to(cache, directory),
                        Err(e) => Err(e@),
                    }) == #[trigger] self.comes_to(cache, directory) by {
                        assert(candidate_views(self.candidates@)[self.next as int]
                            == self.current());
                    }
                }
                r
            },
            None => {
                let next = UserCall {
                    candidates: self.candidates,
                    active: self.active,
                    next: self.next,
                    live: true,
                    found: None,
                };
                proof {
                    assert forall|cache: Cache, directory: Directory|
                        cache(self.key()) == users_view(held) implies next.comes_to(
                        cache,
                        directory,
                    ) == #[trigger] self.comes_to(cache, directory) by {
                        assert(candidate_views(self.candidates@)[self.next as int]
                            == self.current());
                    }
                }
                Ok(next)
            },
        }
    }

    /// Takes in the users that the provider answered with.
    pub fn take_live(self, users: Vec<UserRecord>) -> (r: Result<UserCall, String>)
        requires
            self.well_formed(),
            !self.is_over(),
            self.live,
        ensures
            r is Ok ==> r->Ok_0.well_formed() && r->Ok_0.steps_left() < self.steps_left(),
            forall|cache: Cache, directory: Directory|
                directory(candidate_query(self.current(), self.active)) == users@ ==> (match r {
                    Ok(next) => next.comes_to(cache, directory),
                    Err(e) => Err(e@),
                }) == #[trigger] self.comes_to(cache, directory),
    {
        self.judge(users, false)
    }
}

pub open spec fn users_view(held: Option<Vec<UserRecord>>) -> Option<Seq<UserRecord>> {
    match held {
        Some(users) => Some(users@),
        None => None,
    }
}

/// Only an answer that tells is kept in the cache: no user, or one.
pub fn keeps_answer(users: usize) -> (r: bool)
    ensures
        r == (users <= 1),
{
    users <= 1
}

} // verus!
