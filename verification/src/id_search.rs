//! The search for a sys_id over all tables, within one call: rounds of
//! questions to the tables that wait, the catalog where none does, and the
//! second reading of a row that a parent table answered with.
use vstd::prelude::*;
use vstd::string::*;

use crate::listing::first_failure;
use crate::query::Query;
use crate::record_error::{class_of, identity_failure, RecordResolveError, ResolveErrorView};
use crate::record_number::row_reply;
use crate::record_resolver::{
    any_lost, capped_sum, classes_agree, found_rows, judge_matches, match_check, probe_count,
    reread_failure, reread_record, sort_probes, unreadable_count, Probe, SearchAction, SearchState,
    SearchView, Verdict, PROBE_BUDGET,
};
use crate::record_types::reply_view;
use crate::row::{row_views, Failure, Page, Row, RowView};

verus! {

/// What a search is doing.
pub enum IdStage {
    /// The catalog is read on.
    Catalog,
    /// Some tables are asked.
    Probe { tables: Vec<String> },
    /// The row is read again, in its class.
    Reread { class: String },
    /// The record was found, in its class.
    Found { row: Row, class: String },
    /// The call has nothing more to spend, or no table is left.
    Spent,
}

/// A search under way within a call, and how many questions the call has left.
pub struct IdSearch {
    pub state: SearchState,
    pub remaining: usize,
    pub stage: IdStage,
}

/// The search between two rounds: `state` with `remaining` of the budget left
/// goes on as `s`.
pub open spec fn goes_on(state: SearchView, remaining: int, s: IdSearch) -> bool {
    if remaining == 0 || state.exhausted() {
        s.stage is Spent && s.state@ == state && s.remaining == remaining
    } else if state.pending.len() == 0 {
        s.stage is Catalog && s.state@ == state && s.remaining == remaining
    } else {
        let count = probe_count(state.pending.len() as int, remaining);
        s.stage matches IdStage::Probe { tables } && crate::text::texts(tables@)
            == state.pending.subrange(0, count) && s.state@ == state.after_taking(count)
            && s.remaining == remaining - count
    }
}

/// What the rows that answered lead to.
pub open spec fn judged(
    before: IdSearch,
    state: SearchView,
    rows: Seq<RowView>,
    r: Result<IdSearch, RecordResolveError>,
) -> bool {
    if rows.len() == 0 {
        r is Ok && goes_on(state, before.remaining as int, r->Ok_0)
    } else {
        match first_failure(rows, match_check(state.sys_id)) {
            Some(e) => r is Err && r->Err_0@ == e,
            None => if classes_agree(rows) {
                let class = class_of(rows[0])->Ok_0;
                r is Ok && r->Ok_0.state@ == state && r->Ok_0.remaining == before.remaining && (
                if class == rows[0].table {
                    r->Ok_0.stage matches IdStage::Found { row, class: c } && row@ == rows[0]
                        && c@ == class
                } else {
                    r->Ok_0.stage matches IdStage::Reread { class: c } && c@ == class
                })
            } else {
                r is Err && r->Err_0@ == ResolveErrorView::Integrity(
                    "sys_id returned conflicting object classes; resolution is ambiguous"@,
                )
            },
        }
    }
}

impl IdSearch {
    /// The next round of a search.
    fn next(state: SearchState, remaining: usize) -> (r: IdSearch)
        ensures
            goes_on(state@, remaining as int, r),
    {
        match state.action(remaining) {
            SearchAction::Stop => IdSearch { state, remaining, stage: IdStage::Spent },
            SearchAction::Catalog(_) => IdSearch { state, remaining, stage: IdStage::Catalog },
            SearchAction::Probe { count } => {
                let (tables, state) = state.take(count);
                IdSearch { state, remaining: remaining - count, stage: IdStage::Probe { tables } }
            },
        }
    }

    /// Begins a call with a search that was taken up.
    pub fn begin(state: SearchState) -> (r: IdSearch)
        ensures
            goes_on(state@, PROBE_BUDGET as int, r),
    {
        Self::next(state, PROBE_BUDGET)
    }

    /// A call reads the catalog only while it has something left to spend, and
    /// where no table waits. A record that was found carries the id that was
    /// looked for, and is of the class that it was found in.
    pub open spec fn well_formed(self) -> bool {
        &&& self.stage is Catalog ==> self.remaining > 0 && self.state@.pending.len() == 0
            && !self.state@.catalog_complete
        &&& self.stage matches IdStage::Found { row, class } ==> class_of(row@) == Ok::<
            Seq<char>,
            ResolveErrorView,
        >(class@) && identity_failure(row@, self.state.sys_id@) is None
    }

    /// The catalog query, where the catalog is to be read on.
    pub fn catalog_query(&self) -> (r: Option<Query>)
        requires
            self.well_formed(),
        ensures
            match r {
                Some(q) => self.stage is Catalog && q@ == self.state@.catalog_query(),
                None => !(self.stage is Catalog),
            },
    {
        match &self.stage {
            IdStage::Catalog => match self.state.action(self.remaining) {
                SearchAction::Catalog(q) => Some(q),
                _ => None,
            },
            _ => None,
        }
    }

    /// Takes in a page of the catalog.
    pub fn take_catalog(self, reply: Result<Page, Failure>) -> (r: Result<
        IdSearch,
        RecordResolveError,
    >)
        requires
            self.well_formed(),
            self.stage is Catalog,
        ensures
            match self.state@.after_catalog(reply_view(reply)) {
                Err(e) => r is Err && r->Err_0@ == e,
                Ok(next) => r is Ok && goes_on(
                    next,
                    if next.pending.len() == 0 {
                        self.remaining - 1
                    } else {
                        self.remaining as int
                    },
                    r->Ok_0,
                ),
            },
    {
        match self.state.after_catalog(reply, self.remaining) {
            Ok((state, remaining)) => Ok(Self::next(state, remaining)),
            Err(e) => Err(e),
        }
    }

    /// Takes in what the tables answered that were asked.
    pub fn take_probes(self, probes: Vec<Probe>) -> (r: Result<IdSearch, RecordResolveError>)
        requires
            self.stage is Probe,
        ensures
            r is Ok ==> r->Ok_0.well_formed(),
            if any_lost(probes@) {
                r is Err && r->Err_0@ == ResolveErrorView::Unavailable(
                    "record discovery worker failed"@,
                )
            } else {
                judged(
                    self,
                    SearchView {
                        unreadable: capped_sum(
                            self.state.unreadable,
                            unreadable_count(probes@),
                        ),
                        ..self.state@
                    },
                    found_rows(probes@),
                    r,
                )
            },
    {
        let remaining: usize = self.remaining;
        let (rows, unreadable) = match sort_probes(probes, self.state.unreadable) {
            Ok(pair) => pair,
            Err(e) => {
                return Err(e);
            },
        };
        let state = SearchState {
            sys_id: self.state.sys_id,
            pending: self.state.pending,
            after: self.state.after,
            catalog_complete: self.state.catalog_complete,
            scanned: self.state.scanned,
            unreadable,
        };
        let ghost all = row_views(rows@);
        if rows.is_empty() {
            return Ok(Self::next(state, remaining));
        }
        assert(all[0] == rows@[0]@);
        proof {
            crate::listing::lemma_no_failure(all, match_check(state.sys_id@));
        }
        match judge_matches(rows, state.sys_id.as_str()) {
            Err(e) => Err(e),
            Ok(verdict) => {
                let Verdict { row, class, reread } = verdict;
                Ok(
                    IdSearch {
                        state,
                        remaining,
                        stage: if reread {
                            IdStage::Reread { class }
                        } else {
                            IdStage::Found { row, class }
                        },
                    },
                )
            },
        }
    }

    /// Takes in the row that was read in its class.
    pub fn take_row(self, reply: Result<Row, Failure>) -> (r: Result<IdSearch, RecordResolveError>)
        requires
            self.stage is Reread,
        ensures
            r is Ok ==> r->Ok_0.well_formed(),
            ({
                let class = self.stage->Reread_class;
                match reread_failure(row_reply(reply), self.state.sys_id@, class@) {
                    Some(e) => r is Err && r->Err_0@ == e,
                    None => r is Ok && r->Ok_0.state == self.state && r->Ok_0.remaining
                        == self.remaining && r->Ok_0.stage == (IdStage::Found {
                        row: reply->Ok_0,
                        class,
                    }),
                }
            }),
    {
        match self.stage {
            IdStage::Reread { class } => match reread_record(
                reply,
                self.state.sys_id.as_str(),
                class.as_str(),
            ) {
                Ok(row) => Ok(
                    IdSearch {
                        state: self.state,
                        remaining: self.remaining,
                        stage: IdStage::Found { row, class },
                    },
                ),
                Err(e) => Err(e),
            },
            other => Ok(IdSearch { state: self.state, remaining: self.remaining, stage: other }),
        }
    }
}

/// What a call has left to spend never grows, and every round takes something
/// from it.
pub proof fn calls_stay_in_budget(state: SearchView, remaining: int, s: IdSearch)
    requires
        remaining >= 0,
        goes_on(state, remaining, s),
    ensures
        s.well_formed(),
        0 <= s.remaining <= remaining,
        s.stage is Probe ==> s.remaining < remaining && s.state@.scanned == capped_sum(
            state.scanned,
            remaining - s.remaining,
        ),
{
}

/// A record that a search ends with carries the id that was looked for, and was
/// read from the table of its class.
pub proof fn found_records_are_whole(
    before: IdSearch,
    state: SearchView,
    rows: Seq<RowView>,
    after: IdSearch,
)
    requires
        judged(before, state, rows, Ok(after)),
        after.stage is Found,
    ensures
        ({
            let row = after.stage->Found_row@;
            &&& row.table == after.stage->Found_class@
            &&& class_of(row) == Ok::<Seq<char>, ResolveErrorView>(row.table)
            &&& crate::text::same_ignoring_case(row.sys_id, state.sys_id)
        }),
{
    crate::listing::lemma_first_failure_from(rows, match_check(state.sys_id), 0);
}

} // verus!
