//! A call by name from end to end: the rounds of a call, each of which searches
//! one table, after reading on in the catalog where no table waits.
use vstd::prelude::*;
use vstd::string::*;

use crate::query::Query;
use crate::record_error::RecordResolveError;
use crate::record_name_resolver::{
    match_views, seen_after, too_many, unseen, NameMatchView, NameSearch, NameSearchView,
    RecordNameMatch, TableOutcome, MAX_MATCHES, TABLE_BUDGET,
};
use crate::record_types::reply_view;
use crate::row::{Failure, Page};
use crate::name_table::Column;
use crate::table_search::{model_view, ModelFailure, TableSearch, TableStage, World};
use crate::text::text_of;

verus! {

/// What a call by name is doing.
pub enum NameStage {
    /// The catalog is read on.
    Catalog,
    /// A table is searched.
    Table(TableSearch),
    /// The call is over.
    End,
}

/// A call by name under way: the search, the rounds that are left to the call,
/// and the candidates that it found.
pub struct NameCall {
    pub search: NameSearch,
    pub rounds: usize,
    pub records: Vec<RecordNameMatch>,
    pub stage: NameStage,
}

/// Which stage a call is at, between rounds: it ends with the rounds, with the
/// first candidates, or where nothing is left to search.
pub open spec fn is_next_stage(
    search: NameSearchView,
    rounds: int,
    records: int,
    stage: NameStage,
) -> bool {
    if rounds == 0 || records > 0 || search.exhausted() {
        stage is End
    } else if search.pending.len() == 0 {
        stage is Catalog
    } else {
        stage matches NameStage::Table(t) && t.stage is Model && t.table@ == search.pending[0]
            && t.name@ == search.name && text_of(t.after) == search.row_after
    }
}

/// The end of a round with a table: what it brought joins the candidates.
pub open spec fn after_round(
    before: NameCall,
    outcome: TableOutcome,
    r: Result<NameCall, RecordResolveError>,
) -> bool {
    let s = before.search@;
    let goes_on = |next: NameSearchView, found: Seq<NameMatchView>|
        r is Ok && r->Ok_0.search@ == next && r->Ok_0.rounds == before.rounds - 1 && match_views(
            r->Ok_0.records@,
        ) == match_views(before.records@) + found && is_next_stage(
            next,
            before.rounds - 1,
            r->Ok_0.records@.len() as int,
            r->Ok_0.stage,
        );
    match outcome {
        TableOutcome::Found { matches, next, metadata_complete } => {
            let found = match_views(matches@);
            if seen_after(s.seen, found).len() > MAX_MATCHES {
                r is Err && r->Err_0@ == too_many()
            } else {
                goes_on(s.after_page(found, text_of(next), metadata_complete), unseen(s.seen, found))
            }
        },
        TableOutcome::Failed(RecordResolveError::Integrity(m)) => r is Err && r->Err_0
            == RecordResolveError::Integrity(m),
        TableOutcome::Failed(e) => if s.table is Some {
            r is Err && r->Err_0 == e
        } else {
            goes_on(s.after_failure(), Seq::empty())
        },
        TableOutcome::TimedOut => if s.table is Some {
            r is Err && r->Err_0@ == crate::record_name_resolver::name_timeout()
        } else {
            goes_on(s.after_failure(), Seq::empty())
        },
    }
}

fn next_stage(search: &NameSearch, rounds: usize, records: usize) -> (r: NameStage)
    ensures
        is_next_stage(search@, rounds as int, records as int, r),
{
    if rounds == 0 || records > 0 {
        return NameStage::End;
    }
    match search.current() {
        Some((table, after)) => NameStage::Table(
            TableSearch::start(table, search.name.clone(), after),
        ),
        None => if search.catalog_complete {
            NameStage::End
        } else {
            NameStage::Catalog
        },
    }
}

impl NameCall {
    /// A call searches a table only where it has a round for it, and the table
    /// is the one at the head.
    pub open spec fn well_formed(self) -> bool {
        &&& self.search@.well_formed()
        &&& self.stage is Catalog ==> self.rounds > 0 && self.search@.pending.len() == 0
            && !self.search@.catalog_complete
        &&& self.stage matches NameStage::Table(t) ==> self.rounds > 0
            && self.search@.pending.len() > 0 && t.table@ == self.search@.pending[0] && t.name@
            == self.search@.name && text_of(t.after) == self.search@.row_after
    }

    /// Begins with a search that was taken up.
    pub fn begin(search: NameSearch) -> (r: NameCall)
        requires
            search@.well_formed(),
        ensures
            r.well_formed(),
            r.search == search,
            r.rounds == TABLE_BUDGET,
            r.records@.len() == 0,
            is_next_stage(search@, TABLE_BUDGET as int, 0, r.stage),
    {
        let stage: NameStage = next_stage(&search, TABLE_BUDGET, 0);
        NameCall { search, rounds: TABLE_BUDGET, records: Vec::new(), stage }
    }

    /// The catalog query, where the catalog is to be read on.
    pub fn catalog_query(&self) -> (r: Option<Query>)
        requires
            self.well_formed(),
        ensures
            match r {
                Some(q) => self.stage is Catalog && q@ == self.search@.catalog_query(),
                None => !(self.stage is Catalog),
            },
    {
        match &self.stage {
            NameStage::Catalog => self.search.catalog_query(),
            _ => None,
        }
    }

    /// Takes in a page of the catalog. One that brings no table to search ends
    /// the round.
    pub fn take_catalog(self, reply: Result<Page, Failure>) -> (r: Result<
        NameCall,
        RecordResolveError,
    >)
        requires
            self.well_formed(),
            self.stage is Catalog,
        ensures
            match self.search@.after_catalog(reply_view(reply)) {
                Err(e) => r is Err && r->Err_0@ == e,
                Ok(next) => {
                    let rounds = if next.pending.len() == 0 {
                        self.rounds - 1
                    } else {
                        self.rounds as int
                    };
                    r is Ok && r->Ok_0.well_formed() && r->Ok_0.search@ == next && r->Ok_0.rounds
                        == rounds && r->Ok_0.records == self.records && is_next_stage(
                        next,
                        rounds,
                        self.records@.len() as int,
                        r->Ok_0.stage,
                    )
                },
            },
    {
        let search: NameSearch = match self.search.after_catalog(reply) {
            Ok(s) => s,
            Err(e) => {
                return Err(e);
            },
        };
        let rounds: usize = if search.pending.is_empty() {
            self.rounds - 1
        } else {
            self.rounds
        };
        let stage: NameStage = next_stage(&search, rounds, self.records.len());
        Ok(NameCall { search, rounds, records: self.records, stage })
    }

    /// Takes in what the table brought, and ends the round.
    pub fn take_table(self, outcome: TableOutcome) -> (r: Result<NameCall, RecordResolveError>)
        requires
            self.well_formed(),
            self.stage is Table,
        ensures
            r is Ok ==> r->Ok_0.well_formed(),
            after_round(self, outcome, r),
    {
        let ghost held = self.records@;
        let rounds: usize = self.rounds - 1;
        let mut records: Vec<RecordNameMatch> = self.records;
        let (search, found) = match self.search.after_table(outcome) {
            Ok(pair) => pair,
            Err(e) => {
                return Err(e);
            },
        };
        let mut found: Vec<RecordNameMatch> = found;
        let ghost more = found@;
        records.append(&mut found);
        let stage: NameStage = next_stage(&search, rounds, records.len());
        assert(match_views(records@) =~= match_views(held) + match_views(more));
        assert(more.len() == 0 ==> match_views(more) =~= Seq::empty());
        Ok(NameCall { search, rounds, records, stage })
    }

    /// Takes in an answer to the search of the table. Once that is over, so is
    /// the round.
    pub fn take_answer(self, answer: TableAnswer) -> (r: Result<NameCall, RecordResolveError>)
        requires
            self.well_formed(),
            self.stage matches NameStage::Table(t) && answers(t, answer),
        ensures
            r is Ok ==> r->Ok_0.well_formed(),
            exists|table: TableSearch| #[trigger]
                table_went_on(self.stage->Table_0, answer, table) && round_went_on(self, table, r),
    {
        let ghost before = self;
        let NameCall { search, rounds, records, stage } = self;
        let table: TableSearch = match stage {
            NameStage::Table(t) => {
                let next: TableSearch = match answer {
                    TableAnswer::Model(model) => t.take_model(model),
                    TableAnswer::Page(reply) => t.take(&reply),
                };
                assert(table_went_on(t, answer, next));
                next
            },
            other => {
                return Ok(NameCall { search, rounds, records, stage: other });
            },
        };
        let TableSearch { table: searched, name, after, stage } = table;
        match stage {
            TableStage::Done(outcome) => {
                let over = TableSearch {
                    table: searched,
                    name,
                    after,
                    stage: TableStage::Model,
                };
                let call = NameCall { search, rounds, records, stage: NameStage::Table(over) };
                call.take_table(outcome)
            },
            other => Ok(
                NameCall {
                    search,
                    rounds,
                    records,
                    stage: NameStage::Table(
                        TableSearch { table: searched, name, after, stage: other },
                    ),
                },
            ),
        }
    }
}

/// An answer to the search of a table.
pub enum TableAnswer {
    Model(Result<Vec<Column>, ModelFailure>),
    Page(Result<Page, Failure>),
}

/// Whether an answer is one to what the search asked.
pub open spec fn answers(t: TableSearch, answer: TableAnswer) -> bool {
    match answer {
        TableAnswer::Model(_) => t.stage is Model,
        TableAnswer::Page(_) => t.question() is Some,
    }
}

/// The search of a table goes on with an answer: nearer to its end, and to what
/// it came to before, in every world that answers so.
pub open spec fn table_went_on(
    before: TableSearch,
    answer: TableAnswer,
    after: TableSearch,
) -> bool {
    &&& after.same_search(before)
    &&& after.questions_left() < before.questions_left()
    &&& forall|world: World, model: Result<Seq<Column>, ModelFailure>|
        (match answer {
            TableAnswer::Model(m) => model == model_view(m),
            TableAnswer::Page(reply) => world(before.question()->0) == reply_view(reply),
        }) ==> #[trigger] after.comes_to(world, model) == before.comes_to(world, model)
}

/// A round goes on with its table, or ends with it.
pub open spec fn round_went_on(
    call: NameCall,
    table: TableSearch,
    r: Result<NameCall, RecordResolveError>,
) -> bool {
    match table.stage {
        TableStage::Done(outcome) => after_round(call, outcome, r),
        _ => r == Ok::<NameCall, RecordResolveError>(
            NameCall { stage: NameStage::Table(table), ..call },
        ),
    }
}

/// Every call by name ends: a round is spent on each table and on each page of
/// the catalog that brings none.
pub open spec fn steps_left(call: NameCall) -> int {
    2 * call.rounds + (if call.stage is Catalog {
        1int
    } else {
        0
    })
}

pub proof fn name_calls_end(before: NameCall, after: NameCall, outcome: TableOutcome)
    requires
        before.well_formed(),
        before.stage is Table,
        after_round(before, outcome, Ok(after)),
    ensures
        steps_left(after) < steps_left(before),
        after.rounds < before.rounds,
{
}

/// A call stops at its first candidates: what it answers with comes from one
/// table only.
pub proof fn candidates_end_a_call(before: NameCall, after: NameCall, outcome: TableOutcome)
    requires
        before.well_formed(),
        before.stage is Table,
        after_round(before, outcome, Ok(after)),
        after.records@.len() > 0,
    ensures
        after.stage is End,
{
}

} // verus!
