//! Laws of the calls that look for a record: how much a call may spend, what it counts, and
//! what each of its steps comes to.
use vstd::prelude::*;

use crate::id_search::IdSearch;
use crate::name_search::{after_round, NameCall};
use crate::record_error::{RecordResolveError, ResolveErrorView};
use crate::record_name_resolver::{
    match_views, name_refusal, name_selector, seen_after, NameSearch, NameSelector,
    RecordNameMatch, TableOutcome,
};
use crate::record_number::{
    number_of, number_selector, without_digits, NumberAction, NumberLookup, NumberSelector,
};
use crate::record_resolver::{any_lost, found_rows, sort_probes, Probe, SearchState};
use crate::record_types::reply_view;
use crate::row::{row_views, Failure, Page, Row};
use crate::text::{is_identifier, lower, text_of, texts, trim};

verus! {

/// A call by id may ask 32 tables: with fewer that wait and the catalog behind them, it asks
/// as many as fit at once.
pub proof fn calls_by_id_may_ask_thirty_two_tables(state: SearchState, r: IdSearch)
    requires
        call_ensures(IdSearch::begin, (state,), r),
    ensures
        state.pending@.len() == 0 && state.catalog_complete <==> r.stage is Spent,
        state.pending@.len() == 0 && !state.catalog_complete <==> r.stage is Catalog,
        state.pending@.len() > 0 <==> r.stage is Probe,
        r.stage is Probe ==> ({
            let asked = texts(r.stage->tables@);
            &&& asked.len() <= 8
            &&& asked.len() == 8 || asked.len() == state.pending@.len()
            &&& r.remaining + asked.len() == 32
            &&& asked + texts(r.state.pending@) == texts(state.pending@)
        }),
        r.stage is Spent || r.stage is Catalog ==> r.remaining == 32,
{
    let pending = texts(state.pending@);
    assert(pending.len() == state.pending@.len());
    if r.stage is Probe {
        let count = crate::record_resolver::probe_count(pending.len() as int, 32);
        assert(pending.subrange(0, count) + pending.subrange(count, pending.len() as int)
            =~= pending);
    }
}

/// A page of the catalog that brings no table costs a call by id one of what it may spend.
pub proof fn empty_catalog_pages_cost_one(
    before: IdSearch,
    reply: Result<Page, Failure>,
    r: Result<IdSearch, RecordResolveError>,
)
    requires
        before.well_formed(),
        before.stage is Catalog,
        call_ensures(IdSearch::take_catalog, (before, reply), r),
    ensures
        r is Ok <==> before.state@.after_catalog(reply_view(reply)) is Ok,
        r is Err ==> r->Err_0@ == before.state@.after_catalog(reply_view(reply))->Err_0,
        r is Ok && before.state@.after_catalog(reply_view(reply))->Ok_0.pending.len() == 0
            ==> r->Ok_0.remaining == before.remaining - 1 && !(r->Ok_0.stage is Probe),
        r is Ok && before.state@.after_catalog(reply_view(reply))->Ok_0.pending.len() > 0
            ==> r->Ok_0.stage is Probe && r->Ok_0.remaining < before.remaining,
{
}

/// A lost request ends a search; otherwise the rows that were found come back, and the
/// tables that could not be read are counted.
pub proof fn lost_requests_end_a_search(
    probes: Vec<Probe>,
    unreadable: usize,
    r: Result<(Vec<Row>, usize), RecordResolveError>,
)
    requires
        call_ensures(sort_probes, (probes, unreadable), r),
    ensures
        r is Err <==> exists|i: int| 0 <= i < probes@.len() && (#[trigger] probes@[i]) is Lost,
        r is Err ==> r->Err_0@ == ResolveErrorView::Unavailable("record discovery worker failed"@),
        r is Ok ==> row_views(r->Ok_0.0@) == found_rows(probes@),
{
    assert(any_lost(probes@) <==> exists|i: int|
        0 <= i < probes@.len() && (#[trigger] probes@[i]) is Lost);
}

/// A call by name begins with two rounds and with no candidate.
pub proof fn calls_by_name_have_two_rounds(search: NameSearch, r: NameCall)
    requires
        search@.well_formed(),
        call_ensures(NameCall::begin, (search,), r),
    ensures
        r.search == search,
        r.rounds == 2,
        r.records@.len() == 0,
        r.stage is End <==> search.pending@.len() == 0 && search.catalog_complete,
{
    assert(search@.pending.len() == search.pending@.len());
}

/// A page of the catalog that brings no table to search costs a call by name one round.
pub proof fn empty_catalog_pages_cost_a_round(
    before: NameCall,
    reply: Result<Page, Failure>,
    r: Result<NameCall, RecordResolveError>,
)
    requires
        before.well_formed(),
        before.stage is Catalog,
        call_ensures(NameCall::take_catalog, (before, reply), r),
    ensures
        ({
            let next = before.search@.after_catalog(reply_view(reply));
            &&& r is Ok <==> next is Ok
            &&& r is Err ==> r->Err_0@ == next->Err_0
            &&& r is Ok ==> r->Ok_0.search@ == next->Ok_0 && r->Ok_0.records == before.records
            &&& r is Ok && next->Ok_0.pending.len() == 0 ==> r->Ok_0.rounds == before.rounds - 1
            &&& r is Ok && next->Ok_0.pending.len() > 0 ==> r->Ok_0.rounds == before.rounds
        }),
{
}

/// A table that was searched takes the search further, unless more than ten thousand
/// records match. A contradiction ends the search. A table that could not be searched, or
/// took too long, ends it where it is the one that was asked for, and else is left behind
/// without a candidate.
pub proof fn tables_take_a_search_further(
    before: NameSearch,
    outcome: TableOutcome,
    r: Result<(NameSearch, Vec<RecordNameMatch>), RecordResolveError>,
)
    requires
        before@.well_formed(),
        before@.pending.len() > 0,
        call_ensures(NameSearch::after_table, (before, outcome), r),
    ensures
        outcome is Found ==> ({
            let seen = seen_after(before@.seen, match_views(outcome->matches@));
            &&& r is Ok <==> seen.len() <= 10_000
            &&& r is Err ==> r->Err_0@ == ResolveErrorView::Unavailable(
                "name has too many matches; narrow the table"@,
            )
            &&& r is Ok ==> ({
                let (next, records) = r->Ok_0;
                next@.seen == seen && next@.row_after == text_of(outcome->next)
            })
        }),
        outcome is Failed ==> {
            &&& r is Err <==> outcome->Failed_0 is Integrity || before.table is Some
            &&& r is Err ==> r->Err_0 == outcome->Failed_0
        },
        outcome is TimedOut ==> {
            &&& r is Err <==> before.table is Some
            &&& r is Err ==> r->Err_0@ == ResolveErrorView::Unavailable(
                "name lookup timed out while discovering metadata or querying records"@,
            )
        },
        !(outcome is Found) && r is Ok ==> ({
            let (next, records) = r->Ok_0;
            records@.len() == 0 && next@ == before@.after_failure()
        }),
{
}

/// A round of a call by name costs one; what the table brings joins the candidates, of which
/// none is lost.
pub proof fn rounds_add_their_candidates(
    before: NameCall,
    outcome: TableOutcome,
    r: Result<NameCall, RecordResolveError>,
)
    requires
        after_round(before, outcome, r),
    ensures
        r is Ok ==> {
            &&& r->Ok_0.rounds == before.rounds - 1
            &&& match_views(r->Ok_0.records@).subrange(0, before.records@.len() as int)
                == match_views(before.records@)
            &&& !(outcome is Found) ==> r->Ok_0.records@.len() == before.records@.len()
        },
        outcome is Found ==> (r is Ok <==> seen_after(
            before.search@.seen,
            match_views(outcome->matches@),
        ).len() <= 10_000),
        outcome is Failed && outcome->Failed_0 is Integrity ==> r is Err && r->Err_0
            == outcome->Failed_0,
        !(outcome is Found) && before.search@.table is Some ==> r is Err,
        outcome is TimedOut && before.search@.table is None ==> r is Ok,
{
    if r is Ok {
        let all = match_views(r->Ok_0.records@);
        let old_ones = match_views(before.records@);
        assert(all.len() == r->Ok_0.records@.len());
        assert(old_ones.len() == before.records@.len());
        assert(all.subrange(0, old_ones.len() as int) =~= old_ones);
    }
}

/// A name is read without the blanks around it, and its table in small letters.
pub proof fn names_are_read_without_blanks(
    name: &str,
    table: &Option<String>,
    r: Result<NameSelector, RecordResolveError>,
)
    requires
        call_ensures(name_selector, (name, table), r),
    ensures
        r is Ok <==> name_refusal(name@, text_of(*table)) is None,
        r is Err ==> r->Err_0@ == name_refusal(name@, text_of(*table))->0,
        r is Ok ==> r->Ok_0.name@ == trim(name@),
        r is Ok ==> (r->Ok_0.table is Some <==> *table is Some),
        r is Ok && *table is Some ==> r->Ok_0.table->0@ == lower(trim((*table)->0@)),
{
}

/// A number is read together with its prefix; a scope, where one is given, is a table name.
pub proof fn numbers_are_read_with_their_prefix(
    number: &str,
    scope: &Option<String>,
    r: Result<NumberSelector, RecordResolveError>,
)
    requires
        call_ensures(number_selector, (number, scope), r),
    ensures
        r is Ok <==> number_of(number@) is Ok && (*scope is Some ==> is_identifier((*scope)->0@)),
        r is Ok ==> r->Ok_0.number@ == number_of(number@)->Ok_0 && r->Ok_0.prefix@
            == without_digits(number_of(number@)->Ok_0),
        number_of(number@) is Ok && r is Err ==> r->Err_0@ == ResolveErrorView::InvalidParams(
            "invalid table scope"@,
        ),
{
}

/// A lookup reads the class that is open before it asks another table, and is finished once
/// every table has answered.
pub proof fn lookups_ask_every_table(lookup: &NumberLookup, r: NumberAction)
    requires
        lookup@.well_formed(),
        call_ensures(NumberLookup::action, (lookup,), r),
    ensures
        r is ReadClass <==> lookup.class_read is Some,
        r is Finish <==> lookup.class_read is None && lookup.next == lookup.tables@.len(),
        r is Ask <==> lookup.class_read is None && lookup.next < lookup.tables@.len(),
        r is ReadClass ==> r->table@ == lookup.class_read->0.table@ && r->sys_id@
            == lookup.class_read->0.sys_id@,
{
    assert(lookup@.tables.len() == lookup.tables@.len());
}

/// A finished lookup gives the record that was found. Where none was, it gives the failure
/// of the prefix metadata, or else says that there is none.
pub proof fn finished_lookups_give_the_record(
    lookup: NumberLookup,
    r: Result<Option<Row>, RecordResolveError>,
)
    requires
        lookup@.well_formed(),
        call_ensures(NumberLookup::finish, (lookup,), r),
    ensures
        r is Err <==> lookup.found is None && lookup.mapping_error is Some,
        r is Err ==> r->Err_0 == lookup.mapping_error->0,
        r is Ok ==> r->Ok_0 == lookup.found,
        r is Ok && r->Ok_0 is Some ==> r->Ok_0->0@.raw("number"@) == Some(lookup.number@),
{
}

} // verus!
