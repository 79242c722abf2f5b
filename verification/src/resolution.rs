//! A lookup from end to end: what is asked next, what each answer leads to, and
//! what the caller is told.
use vstd::prelude::*;
use vstd::string::*;

use crate::document::{
    deliver, delivered, documents_ok, lemma_live_documents, replay_document, replayed, Delivery, DocumentPage,
    DocumentState, ResolvedContent,
};
use crate::id_search::{calls_stay_in_budget, goes_on, judged, IdSearch, IdStage};
use crate::name_search::{
    after_round, is_next_stage, round_went_on, table_went_on, NameCall, NameStage, TableAnswer,
};
use crate::name_table::Column;
use crate::query::{DisplayMode, Query};
use crate::record_error::{
    actual_table, class_of, identity_failure, RecordResolveError, ResolveErrorView,
};
use crate::record_name_resolver::{
    name_opened, name_parked, name_refusal, name_selector, open_name_search, park_name,
    NameMatches, NameSearch, TableOutcome, TABLE_BUDGET,
};
use crate::record_number::{
    number_of, number_selector, number_started, row_reply, without_digits, NumberAction,
    NumberLookup, NumberSelector,
};
use crate::record_resolver::{
    any_lost, begin_resolution, capped_sum, check_number_scope, check_scope, found_rows,
    hinted_scope, number_scope_failure, open_search, park, parked, reread_failure, route,
    scoped_failure, scoped_record, search_opened, unreadable_count, Probe, RecordResolveInput,
    ResolveRoute, ResolveStart, SearchEnd, SearchState, SearchView, PROBE_BUDGET,
};
use crate::record_types::{
    literal_of, not_unique, prefix_answer, prefix_query, prefix_query_of, prefix_tables, reply_view,
    resource_type, type_of_table, unique_type, RecordType, TypeStage, TypeTables,
};
use crate::row::{Failure, Page, Row};
use crate::session::{live_entry, other_token, Session, Sessions};
use crate::table_search::{ModelFailure, TableRequest, TableSearch, TableStage};
use crate::tables::{bad_sys_id, sys_id_of};
use crate::text::{copy_list, is_identifier, lower, text_of, texts, trim};
use crate::type_search::{asks, type_next, TypeRequest, TypeSearch};

verus! {

/// What a caller is told.
pub enum RecordResolution {
    TypeMatches { types: Vec<RecordType>, complete: bool },
    NumberNotFoundOrInaccessible { number: String },
    NameMatches(NameMatches),
    Document(DocumentPage),
    Resolved { record: ResolvedContent },
    Searching { sys_id: String, cursor: String, scanned_tables: usize, unreadable_tables: usize },
    NotFoundOrInaccessible { sys_id: String, scanned_tables: usize, unreadable_tables: usize },
}

/// A record that was found, before it is written out.
pub struct FoundRecord {
    pub sys_id: String,
    pub table: String,
    pub resource_type: String,
    pub row: Row,
    /// The cursor of the call that found it.
    pub cursor: Option<String>,
}

/// A lookup under way.
pub enum Resolution {
    /// The types that a selector stands for are discovered.
    Types(TypeSearch),
    /// The one type that the hint stands for is.
    Hint { input: RecordResolveInput, search: TypeSearch },
    Name(NameCall),
    /// The tables of a number prefix are asked for.
    Prefix { given: String, selector: NumberSelector },
    Number { given: String, lookup: NumberLookup, scope: Option<String> },
    /// A row is read from the table that it was said to be in.
    Scoped { sys_id: String, table: String, cursor: Option<String> },
    Id { search: IdSearch, cursor: Option<String> },
    /// The record is found, and has to be written out.
    Describe(FoundRecord),
    Done(RecordResolution),
}

/// What a lookup needs next.
pub enum ResolveRequest {
    /// The number metadata of a prefix, read together with the table that is
    /// configured for it.
    Prefix { prefix: String, query: Query },
    Ask(Query),
    /// The live model of a table.
    Model { table: String },
    /// One row of a table, with its values in one form or in both.
    Read { table: String, sys_id: String, display: DisplayMode },
    /// The row in each of some tables, with its values in both forms.
    Probe { tables: Vec<String>, sys_id: String },
    /// The record written out, together with what is known of its table.
    Describe { table: String },
    /// Nothing from outside: the answers are all there.
    Settle,
    Done,
}

/// The sessions of all lookups.
pub struct Resolver {
    pub searches: Sessions<SearchState>,
    pub documents: Sessions<DocumentState>,
    pub names: Sessions<NameSearch>,
}

pub open spec fn names_ok(entries: Seq<Session<NameSearch>>) -> bool {
    forall|i: int| 0 <= i < entries.len() ==> (#[trigger] entries[i]).state@.well_formed()
}

impl Resolver {
    pub open spec fn well_formed(self) -> bool {
        &&& self.searches.well_formed()
        &&& self.documents.well_formed()
        &&& documents_ok(self.documents.entries@)
        &&& self.names.well_formed()
        &&& names_ok(self.names.entries@)
    }

    pub fn new() -> (r: Resolver)
        ensures
            r.well_formed(),
            r.searches.entries@.len() == 0,
            r.documents.entries@.len() == 0,
            r.names.entries@.len() == 0,
    {
        Resolver { searches: Sessions::new(), documents: Sessions::new(), names: Sessions::new() }
    }
}

impl Resolution {
    /// Every part is well formed, and a record that is written out carries the id
    /// that it is told under and is of the class that it is told to be.
    pub open spec fn well_formed(self) -> bool {
        match self {
            Resolution::Types(search) => search.well_formed(),
            Resolution::Hint { input, search } => search.well_formed() && input.selectors() == 1,
            Resolution::Name(call) => call.well_formed(),
            Resolution::Number { given, lookup, scope } => lookup@.well_formed(),
            Resolution::Id { search, cursor } => search.well_formed(),
            Resolution::Describe(found) => class_of(found.row@) == Ok::<
                Seq<char>,
                ResolveErrorView,
            >(found.table@) && identity_failure(found.row@, found.sys_id@) is None,
            _ => true,
        }
    }

    /// Whether a page of rows is the answer that is waited for.
    pub open spec fn wants_page(self) -> bool {
        match self {
            Resolution::Types(search) => !(search.stage is Done),
            Resolution::Hint { input, search } => !(search.stage is Done),
            Resolution::Name(call) => match call.stage {
                NameStage::Catalog => true,
                NameStage::Table(t) => t.question() is Some,
                NameStage::End => false,
            },
            Resolution::Prefix { given, selector } => true,
            Resolution::Number { given, lookup, scope } => lookup@.class_read is None
                && lookup@.next < lookup@.tables.len(),
            Resolution::Id { search, cursor } => search.stage is Catalog,
            _ => false,
        }
    }

    /// Whether a row is the answer that is waited for.
    pub open spec fn wants_row(self) -> bool {
        match self {
            Resolution::Number { given, lookup, scope } => lookup@.class_read is Some,
            Resolution::Scoped { sys_id, table, cursor } => true,
            Resolution::Id { search, cursor } => search.stage is Reread,
            _ => false,
        }
    }

    /// Whether every answer is there.
    pub open spec fn is_settled(self) -> bool {
        match self {
            Resolution::Types(search) => search.stage is Done,
            Resolution::Hint { input, search } => search.stage is Done,
            Resolution::Name(call) => call.stage is End,
            Resolution::Number { given, lookup, scope } => lookup@.class_read is None
                && lookup@.next == lookup@.tables.len(),
            Resolution::Id { search, cursor } => search.stage is Found || search.stage is Spent,
            _ => false,
        }
    }
}

// --- what is asked ---

/// What a lookup asks for, stage by stage.
pub open spec fn requests(stage: Resolution, r: Result<ResolveRequest, RecordResolveError>) -> bool {
    match stage {
        Resolution::Types(search) => type_requests(search, r),
        Resolution::Hint { input, search } => type_requests(search, r),
        Resolution::Name(call) => match call.stage {
            NameStage::Catalog => r matches Ok(ResolveRequest::Ask(q)) && q@
                == call.search@.catalog_query(),
            NameStage::Table(t) => match t.stage {
                TableStage::Model => r matches Ok(ResolveRequest::Model { table }) && table@
                    == t.table@,
                TableStage::Done(_) => r matches Ok(ResolveRequest::Settle),
                _ => r matches Ok(ResolveRequest::Ask(q)) && Some(q@) == t.question(),
            },
            NameStage::End => r matches Ok(ResolveRequest::Settle),
        },
        Resolution::Prefix { given, selector } => r matches Ok(
            ResolveRequest::Prefix { prefix, query },
        ) && prefix@ == selector.prefix@ && query@ == prefix_query_of(selector.prefix@),
        Resolution::Number { given, lookup, scope } => match lookup@.class_read {
            Some(c) => r matches Ok(ResolveRequest::Read { table, sys_id, display }) && table@
                == c.table && sys_id@ == c.sys_id && display is Raw,
            None => if lookup@.next < lookup@.tables.len() {
                r matches Ok(ResolveRequest::Ask(q)) && q@ == lookup@.query()
            } else {
                r matches Ok(ResolveRequest::Settle)
            },
        },
        Resolution::Scoped { sys_id, table, cursor } => r matches Ok(
            ResolveRequest::Read { table: t, sys_id: id, display },
        ) && t@ == table@ && id@ == sys_id@ && display is Raw,
        Resolution::Id { search, cursor } => match search.stage {
            IdStage::Catalog => r matches Ok(ResolveRequest::Ask(q)) && q@
                == search.state@.catalog_query(),
            IdStage::Probe { tables } => r matches Ok(
                ResolveRequest::Probe { tables: t, sys_id: id },
            ) && texts(t@) == texts(tables@) && id@ == search.state.sys_id@,
            IdStage::Reread { class } => r matches Ok(
                ResolveRequest::Read { table: t, sys_id: id, display },
            ) && t@ == class@ && id@ == search.state.sys_id@ && display is Both,
            _ => r matches Ok(ResolveRequest::Settle),
        },
        Resolution::Describe(found) => r matches Ok(ResolveRequest::Describe { table }) && table@
            == found.table@,
        Resolution::Done(_) => r matches Ok(ResolveRequest::Done),
    }
}

/// What a discovery of types asks for.
pub open spec fn type_requests(
    search: TypeSearch,
    r: Result<ResolveRequest, RecordResolveError>,
) -> bool {
    let asked = |a: Result<TypeRequest, RecordResolveError>|
        asks(search.selector.selector@, search.stage, a);
    match r {
        Ok(ResolveRequest::Prefix { prefix, query }) => asked(
            Ok(TypeRequest::Prefix { prefix, query }),
        ),
        Ok(ResolveRequest::Ask(q)) => asked(Ok(TypeRequest::Ask(q))),
        Ok(ResolveRequest::Settle) => asked(Ok(TypeRequest::Done)),
        Ok(_) => false,
        Err(e) => asked(Err(e)),
    }
}

fn type_request(search: &TypeSearch) -> (r: Result<ResolveRequest, RecordResolveError>)
    requires
        search.well_formed(),
    ensures
        type_requests(*search, r),
{
    match search.request() {
        Ok(TypeRequest::Prefix { prefix, query }) => Ok(ResolveRequest::Prefix { prefix, query }),
        Ok(TypeRequest::Ask(q)) => Ok(ResolveRequest::Ask(q)),
        Ok(TypeRequest::Done) => Ok(ResolveRequest::Settle),
        Err(e) => Err(e),
    }
}

impl Resolution {
    pub fn request(&self) -> (r: Result<ResolveRequest, RecordResolveError>)
        requires
            self.well_formed(),
        ensures
            requests(*self, r),
    {
        match self {
            Resolution::Types(search) => type_request(search),
            Resolution::Hint { input, search } => type_request(search),
            Resolution::Name(call) => match &call.stage {
                NameStage::Catalog => match call.catalog_query() {
                    Some(q) => Ok(ResolveRequest::Ask(q)),
                    None => Ok(ResolveRequest::Settle),
                },
                NameStage::Table(t) => match t.request() {
                    TableRequest::Model { table } => Ok(ResolveRequest::Model { table }),
                    TableRequest::Ask(q) => Ok(ResolveRequest::Ask(q)),
                    TableRequest::Done => Ok(ResolveRequest::Settle),
                },
                NameStage::End => Ok(ResolveRequest::Settle),
            },
            Resolution::Prefix { given, selector } => Ok(
                ResolveRequest::Prefix {
                    prefix: selector.prefix.clone(),
                    query: prefix_query(selector.prefix.as_str()),
                },
            ),
            Resolution::Number { given, lookup, scope } => match lookup.action() {
                NumberAction::Ask(q) => Ok(ResolveRequest::Ask(q)),
                NumberAction::ReadClass { table, sys_id } => Ok(
                    ResolveRequest::Read { table, sys_id, display: DisplayMode::Raw },
                ),
                NumberAction::Finish => Ok(ResolveRequest::Settle),
            },
            Resolution::Scoped { sys_id, table, cursor } => Ok(
                ResolveRequest::Read {
                    table: table.clone(),
                    sys_id: sys_id.clone(),
                    display: DisplayMode::Raw,
                },
            ),
            Resolution::Id { search, cursor } => match &search.stage {
                IdStage::Catalog => match search.catalog_query() {
                    Some(q) => Ok(ResolveRequest::Ask(q)),
                    None => Ok(ResolveRequest::Settle),
                },
                IdStage::Probe { tables } => Ok(
                    ResolveRequest::Probe {
                        tables: copy_list(tables),
                        sys_id: search.state.sys_id.clone(),
                    },
                ),
                IdStage::Reread { class } => Ok(
                    ResolveRequest::Read {
                        table: class.clone(),
                        sys_id: search.state.sys_id.clone(),
                        display: DisplayMode::Both,
                    },
                ),
                _ => Ok(ResolveRequest::Settle),
            },
            Resolution::Describe(found) => Ok(
                ResolveRequest::Describe { table: found.table.clone() },
            ),
            Resolution::Done(_) => Ok(ResolveRequest::Done),
        }
    }
}

// --- what the answers lead to ---

/// Where a page of rows leads.
pub open spec fn after_page(
    stage: Resolution,
    page: Result<Page, Failure>,
    configured: Option<Seq<char>>,
    r: Result<Resolution, RecordResolveError>,
) -> bool {
    let reply = reply_view(page);
    match stage {
        Resolution::Types(search) => match r {
            Ok(Resolution::Types(next)) => next.selector == search.selector && type_next(
                search.selector.selector@,
                search.stage,
                reply,
                configured,
                Ok(next.stage),
            ),
            Ok(_) => false,
            Err(e) => type_next(
                search.selector.selector@,
                search.stage,
                reply,
                configured,
                Err(e),
            ),
        },
        Resolution::Hint { input, search } => match r {
            Ok(Resolution::Hint { input: i, search: next }) => i == input && next.selector
                == search.selector && type_next(
                search.selector.selector@,
                search.stage,
                reply,
                configured,
                Ok(next.stage),
            ),
            Ok(_) => false,
            Err(e) => type_next(
                search.selector.selector@,
                search.stage,
                reply,
                configured,
                Err(e),
            ),
        },
        Resolution::Name(call) => match call.stage {
            NameStage::Catalog => match call.search@.after_catalog(reply) {
                Err(e) => r is Err && r->Err_0@ == e,
                Ok(next) => {
                    let rounds = if next.pending.len() == 0 {
                        call.rounds - 1
                    } else {
                        call.rounds as int
                    };
                    r matches Ok(Resolution::Name(c)) && c.search@ == next && c.rounds == rounds
                        && c.records == call.records && is_next_stage(
                        next,
                        rounds,
                        call.records@.len() as int,
                        c.stage,
                    )
                },
            },
            NameStage::Table(t) => table_answered(call, TableAnswer::Page(page), r),
            NameStage::End => false,
        },
        Resolution::Prefix { given, selector } => exists|
            mapping: Result<TypeTables, RecordResolveError>,
            started: Result<NumberLookup, RecordResolveError>,
        |
            #[trigger] prefix_answer(selector.prefix@, reply, configured, mapping)
                && #[trigger] number_started(selector.number@, mapping, started) && (match started {
                Ok(l) => r == Ok::<Resolution, RecordResolveError>(
                    Resolution::Number { given, lookup: l, scope: None },
                ),
                Err(e) => r == Err::<Resolution, RecordResolveError>(e),
            }),
        Resolution::Number { given, lookup, scope } => match lookup@.after_page(reply) {
            Err(e) => r is Err && r->Err_0@ == e,
            Ok(next) => r matches Ok(Resolution::Number { given: g, lookup: l, scope: s }) && g
                == given && s == scope && l@ == next,
        },
        Resolution::Id { search, cursor } => match search.state@.after_catalog(reply) {
            Err(e) => r is Err && r->Err_0@ == e,
            Ok(next) => r matches Ok(Resolution::Id { search: s, cursor: c }) && c == cursor
                && goes_on(
                next,
                if next.pending.len() == 0 {
                    search.remaining - 1
                } else {
                    search.remaining as int
                },
                s,
            ),
        },
        _ => false,
    }
}

/// A step of a call by name, as a step of the lookup.
pub open spec fn as_call(r: Result<Resolution, RecordResolveError>, c: Result<
    NameCall,
    RecordResolveError,
>) -> bool {
    match c {
        Ok(call) => r == Ok::<Resolution, RecordResolveError>(Resolution::Name(call)),
        Err(e) => r == Err::<Resolution, RecordResolveError>(e),
    }
}

/// The table of the round goes on with an answer.
pub open spec fn table_answered(
    call: NameCall,
    answer: TableAnswer,
    r: Result<Resolution, RecordResolveError>,
) -> bool {
    exists|table: TableSearch, c: Result<NameCall, RecordResolveError>| #[trigger]
        table_went_on(call.stage->Table_0, answer, table) && #[trigger] round_went_on(call, table, c)
            && as_call(r, c)
}

fn named(r: Result<NameCall, RecordResolveError>) -> (out: Result<Resolution, RecordResolveError>)
    ensures
        as_call(out, r),
{
    match r {
        Ok(call) => Ok(Resolution::Name(call)),
        Err(e) => Err(e),
    }
}

impl Resolution {
    /// Takes in a page of rows. `configured` is the table that is configured for
    /// the prefix, where one was asked for.
    pub fn take_page(self, reply: Result<Page, Failure>, configured: &Option<String>) -> (r: Result<
        Resolution,
        RecordResolveError,
    >)
        requires
            self.well_formed(),
            self.wants_page(),
        ensures
            r is Ok ==> r->Ok_0.well_formed(),
            after_page(self, reply, text_of(*configured), r),
    {
        match self {
            Resolution::Types(search) => match search.take(&reply, configured) {
                Ok(next) => Ok(Resolution::Types(next)),
                Err(e) => Err(e),
            },
            Resolution::Hint { input, search } => match search.take(&reply, configured) {
                Ok(next) => Ok(Resolution::Hint { input, search: next }),
                Err(e) => Err(e),
            },
            Resolution::Name(call) => {
                let at_table: bool = match &call.stage {
                    NameStage::Table(_) => true,
                    _ => false,
                };
                if at_table {
                    named(call.take_answer(TableAnswer::Page(reply)))
                } else {
                    named(call.take_catalog(reply))
                }
            },
            Resolution::Prefix { given, selector } => {
                let mapping: Result<TypeTables, RecordResolveError> = prefix_tables(
                    selector.prefix.as_str(),
                    &reply,
                    configured,
                );
                let ghost shown = mapping;
                let started: Result<NumberLookup, RecordResolveError> = NumberLookup::start(
                    selector.number,
                    mapping,
                );
                assert(prefix_answer(
                    selector.prefix@,
                    reply_view(reply),
                    text_of(*configured),
                    shown,
                ));
                assert(number_started(selector.number@, shown, started));
                match started {
                    Ok(lookup) => Ok(Resolution::Number { given, lookup, scope: None }),
                    Err(e) => Err(e),
                }
            },
            Resolution::Number { given, lookup, scope } => match lookup.after_page(reply) {
                Ok(next) => Ok(Resolution::Number { given, lookup: next, scope }),
                Err(e) => Err(e),
            },
            Resolution::Id { search, cursor } => match search.take_catalog(reply) {
                Ok(next) => Ok(Resolution::Id { search: next, cursor }),
                Err(e) => Err(e),
            },
            other => Ok(other),
        }
    }
}

/// The record to be written out.
pub open spec fn describes(
    r: Result<Resolution, RecordResolveError>,
    row: Row,
    sys_id: Seq<char>,
    table: Seq<char>,
    cursor: Option<Seq<char>>,
) -> bool {
    r matches Ok(Resolution::Describe(found)) && found.row == row && found.sys_id@ == sys_id
        && found.table@ == table && found.resource_type@ == type_of_table(table) && text_of(
        found.cursor,
    ) == cursor
}

fn describe(row: Row, sys_id: String, table: String, cursor: Option<String>) -> (r: Resolution)
    ensures
        describes(Ok(r), row, sys_id@, table@, text_of(cursor)),
{
    let kind: String = resource_type(table.as_str());
    Resolution::Describe(FoundRecord { sys_id, table, resource_type: kind, row, cursor })
}

/// Where a row leads.
pub open spec fn after_row(
    stage: Resolution,
    reply: Result<Row, Failure>,
    r: Result<Resolution, RecordResolveError>,
) -> bool {
    match stage {
        Resolution::Number { given, lookup, scope } => match lookup@.after_class(row_reply(reply)) {
            Err(e) => r is Err && r->Err_0@ == e,
            Ok(next) => r matches Ok(Resolution::Number { given: g, lookup: l, scope: s }) && g
                == given && s == scope && l@ == next,
        },
        Resolution::Scoped { sys_id, table, cursor } => match scoped_failure(
            row_reply(reply),
            sys_id@,
            table@,
        ) {
            Some(e) => r is Err && r->Err_0@ == e,
            None => describes(r, reply->Ok_0, reply->Ok_0.sys_id@, table@, text_of(cursor)),
        },
        Resolution::Id { search, cursor } => match reread_failure(
            row_reply(reply),
            search.state.sys_id@,
            search.stage->Reread_class@,
        ) {
            Some(e) => r is Err && r->Err_0@ == e,
            None => r == Ok::<Resolution, RecordResolveError>(
                Resolution::Id {
                    search: IdSearch {
                        stage: IdStage::Found {
                            row: reply->Ok_0,
                            class: search.stage->Reread_class,
                        },
                        ..search
                    },
                    cursor,
                },
            ),
        },
        _ => false,
    }
}

impl Resolution {
    /// Takes in a row.
    pub fn take_row(self, reply: Result<Row, Failure>) -> (r: Result<
        Resolution,
        RecordResolveError,
    >)
        requires
            self.well_formed(),
            self.wants_row(),
        ensures
            r is Ok ==> r->Ok_0.well_formed(),
            after_row(self, reply, r),
    {
        match self {
            Resolution::Number { given, lookup, scope } => match lookup.after_class(reply) {
                Ok(next) => Ok(Resolution::Number { given, lookup: next, scope }),
                Err(e) => Err(e),
            },
            Resolution::Scoped { sys_id, table, cursor } => match scoped_record(
                reply,
                sys_id.as_str(),
                table.as_str(),
            ) {
                Ok(row) => {
                    let id: String = row.sys_id.clone();
                    Ok(describe(row, id, table, cursor))
                },
                Err(e) => Err(e),
            },
            Resolution::Id { search, cursor } => match search.take_row(reply) {
                Ok(next) => Ok(Resolution::Id { search: next, cursor }),
                Err(e) => Err(e),
            },
            other => Ok(other),
        }
    }

    /// Takes in the live model of the table that is searched by name.
    pub fn take_model(self, model: Result<Vec<Column>, ModelFailure>) -> (r: Result<
        Resolution,
        RecordResolveError,
    >)
        requires
            self.well_formed(),
            self matches Resolution::Name(call) && (call.stage matches NameStage::Table(t)
                && t.stage is Model),
        ensures
            r is Ok ==> r->Ok_0.well_formed(),
            table_answered(self->Name_0, TableAnswer::Model(model), r),
    {
        match self {
            Resolution::Name(call) => named(call.take_answer(TableAnswer::Model(model))),
            other => Ok(other),
        }
    }

    /// Gives the table up that is searched by name: it took too long.
    pub fn take_timeout(self) -> (r: Result<Resolution, RecordResolveError>)
        requires
            self.well_formed(),
            self matches Resolution::Name(call) && call.stage is Table,
        ensures
            r is Ok ==> r->Ok_0.well_formed(),
            exists|c: Result<NameCall, RecordResolveError>| #[trigger]
                after_round(self->Name_0, TableOutcome::TimedOut, c) && as_call(r, c),
    {
        match self {
            Resolution::Name(call) => named(call.take_table(TableOutcome::TimedOut)),
            other => Ok(other),
        }
    }

    /// Takes in what the tables answered that were asked for a sys_id.
    pub fn take_probes(self, probes: Vec<Probe>) -> (r: Result<Resolution, RecordResolveError>)
        requires
            self.well_formed(),
            self matches Resolution::Id { search, cursor } && search.stage is Probe,
        ensures
            r is Ok ==> r->Ok_0.well_formed(),
            if any_lost(probes@) {
                r is Err && r->Err_0@ == ResolveErrorView::Unavailable(
                    "record discovery worker failed"@,
                )
            } else {
                let search = self->Id_search;
                let state = SearchView {
                    unreadable: capped_sum(search.state.unreadable, unreadable_count(probes@)),
                    ..search.state@
                };
                match r {
                    Ok(Resolution::Id { search: next, cursor }) => cursor == self->Id_cursor
                        && judged(search, state, found_rows(probes@), Ok(next)),
                    Ok(_) => false,
                    Err(e) => judged(search, state, found_rows(probes@), Err(e)),
                }
            },
    {
        match self {
            Resolution::Id { search, cursor } => match search.take_probes(probes) {
                Ok(next) => Ok(Resolution::Id { search: next, cursor }),
                Err(e) => Err(e),
            },
            other => Ok(other),
        }
    }
}

// --- how a lookup begins ---

/// How a lookup begins that has one selector, in a scope.
pub open spec fn entered(
    before: Resolver,
    after: Resolver,
    input: RecordResolveInput,
    scope: Option<Seq<char>>,
    now: u64,
    r: Result<Resolution, RecordResolveError>,
) -> bool {
    match input.name {
        Some(name) => name_entered(before, after, name@, scope, text_of(input.cursor), now, r),
        None => match input.number {
            Some(number) => after == before && number_entered(
                number,
                scope,
                input.cursor is Some,
                r,
            ),
            None => match sys_id_of(input.sys_id->0@) {
                Some(id) => id_entered(before, after, id, scope, text_of(input.cursor), now, r),
                None => after == before && r is Err && r->Err_0@
                    == ResolveErrorView::InvalidParams(bad_sys_id()),
            },
        },
    }
}

/// The table of a scope in its usual spelling.
pub open spec fn scope_table(scope: Option<Seq<char>>) -> Option<Seq<char>> {
    match scope {
        Some(t) => Some(lower(trim(t))),
        None => None,
    }
}

/// A lookup by name takes up its search.
pub open spec fn name_entered(
    before: Resolver,
    after: Resolver,
    name: Seq<char>,
    scope: Option<Seq<char>>,
    cursor: Option<Seq<char>>,
    now: u64,
    r: Result<Resolution, RecordResolveError>,
) -> bool {
    match name_refusal(name, scope) {
        Some(e) => after == before && r is Err && r->Err_0@ == e,
        None => after.searches == before.searches && after.documents == before.documents
            && exists|opened: Result<NameSearch, RecordResolveError>|
            #[trigger] name_opened(
                before.names,
                after.names,
                cursor,
                trim(name),
                scope_table(scope),
                now,
                opened,
            ) && (match opened {
                Ok(search) => r matches Ok(Resolution::Name(call)) && call.search == search
                    && call.rounds == TABLE_BUDGET && call.records@.len() == 0 && is_next_stage(
                    search@,
                    TABLE_BUDGET as int,
                    0,
                    call.stage,
                ),
                Err(e) => r == Err::<Resolution, RecordResolveError>(e),
            }),
    }
}

/// A lookup by number asks for the tables of its prefix, unless it was told one.
pub open spec fn number_entered(
    number: String,
    scope: Option<Seq<char>>,
    has_cursor: bool,
    r: Result<Resolution, RecordResolveError>,
) -> bool {
    if has_cursor {
        r is Err && r->Err_0@ == ResolveErrorView::InvalidParams(
            "continue a numbered record document with its returned sys_id and cursor"@,
        )
    } else {
        match number_of(number@) {
            Err(e) => r is Err && r->Err_0@ == e,
            Ok(n) => match scope {
                Some(table) => if !is_identifier(table) {
                    r is Err && r->Err_0@ == ResolveErrorView::InvalidParams(
                        "invalid table scope"@,
                    )
                } else {
                    r matches Ok(Resolution::Number { given, lookup, scope: s }) && given == number
                        && text_of(s) == scope && lookup@ == (
                    crate::record_number::NumberLookupView {
                        number: n,
                        tables: seq![table],
                        next: 0,
                        mapping_error: None,
                        found: None,
                        class_read: None,
                    })
                },
                None => r matches Ok(Resolution::Prefix { given, selector }) && given == number
                    && selector.number@ == n && selector.prefix@ == without_digits(n),
            },
        }
    }
}

/// A lookup by sys_id: a page of a document that is being read, or the record
/// in the scope that was given, or a search over all tables.
pub open spec fn id_entered(
    before: Resolver,
    after: Resolver,
    id: Seq<char>,
    scope: Option<Seq<char>>,
    cursor: Option<Seq<char>>,
    now: u64,
    r: Result<Resolution, RecordResolveError>,
) -> bool {
    &&& after.names == before.names
    &&& match cursor {
        Some(c) => exists|token: String, page: Option<Result<DocumentPage, RecordResolveError>>|
            #[trigger] replayed(
                before.documents.entries@,
                after.documents.entries@,
                c,
                id,
                now,
                token,
                page,
            ) && (match page {
                Some(Ok(p)) => after.searches == before.searches && r == Ok::<
                    Resolution,
                    RecordResolveError,
                >(Resolution::Done(RecordResolution::Document(p))),
                Some(Err(e)) => after.searches == before.searches && r == Err::<
                    Resolution,
                    RecordResolveError,
                >(e),
                None => record_entered(before, after, id, scope, cursor, now, r),
            }),
        None => after.documents.entries@ == before.documents.entries@.filter(live_entry(now))
            && record_entered(before, after, id, scope, cursor, now, r),
    }
}

pub open spec fn record_entered(
    before: Resolver,
    after: Resolver,
    id: Seq<char>,
    scope: Option<Seq<char>>,
    cursor: Option<Seq<char>>,
    now: u64,
    r: Result<Resolution, RecordResolveError>,
) -> bool {
    match scope {
        Some(table) => after.searches == before.searches && (if is_identifier(table) {
            r matches Ok(Resolution::Scoped { sys_id, table: t, cursor: c }) && sys_id@ == id && t@
                == table && text_of(c) == cursor
        } else {
            r is Err && r->Err_0@ == ResolveErrorView::InvalidParams("invalid table identifier"@)
        }),
        None => exists|opened: Result<SearchState, RecordResolveError>|
            #[trigger] search_opened(before.searches, after.searches, cursor, id, now, opened) && (
            match opened {
                Ok(state) => r matches Ok(Resolution::Id { search, cursor: c }) && text_of(c)
                    == cursor && goes_on(state@, PROBE_BUDGET as int, search),
                Err(e) => r == Err::<Resolution, RecordResolveError>(e),
            }),
    }
}

proof fn lemma_live_names(entries: Seq<Session<NameSearch>>, now: u64)
    requires
        names_ok(entries),
    ensures
        names_ok(entries.filter(live_entry(now))),
{
    let live = entries.filter(live_entry(now));
    assert forall|i: int| 0 <= i < live.len() implies (#[trigger] live[i]).state@.well_formed() by {
        crate::listing::lemma_filter_sound(entries, live_entry(now));
        assert(live.contains(live[i]));
    }
}

impl Resolver {
    fn enter_name(&mut self, name: String, scope: Option<String>, cursor: Option<String>, now: u64) -> (r:
        Result<Resolution, RecordResolveError>)
        requires
            old(self).well_formed(),
        ensures
            final(self).well_formed(),
            r is Ok ==> r->Ok_0.well_formed(),
            name_entered(
                *old(self),
                *final(self),
                name@,
                text_of(scope),
                text_of(cursor),
                now,
                r,
            ),
    {
        let selector = match name_selector(name.as_str(), &scope) {
            Ok(s) => s,
            Err(e) => {
                return Err(e);
            },
        };
        let opened: Result<NameSearch, RecordResolveError> = open_name_search(
            &mut self.names,
            &cursor,
            selector.name.as_str(),
            &selector.table,
            now,
        );
        proof {
            lemma_live_names(old(self).names.entries@, now);
            assert(name_opened(
                old(self).names,
                self.names,
                text_of(cursor),
                trim(name@),
                scope_table(text_of(scope)),
                now,
                opened,
            ));
        }
        match opened {
            Ok(search) => {
                assert(search@.well_formed());
                Ok(Resolution::Name(NameCall::begin(search)))
            },
            Err(e) => Err(e),
        }
    }
}

impl Resolver {
    fn enter_number(number: String, scope: Option<String>) -> (r: Result<
        Resolution,
        RecordResolveError,
    >)
        ensures
            r is Ok ==> r->Ok_0.well_formed(),
            number_entered(number, text_of(scope), false, r),
    {
        let selector: NumberSelector = match number_selector(number.as_str(), &scope) {
            Ok(s) => s,
            Err(e) => {
                return Err(e);
            },
        };
        match scope {
            Some(table) => {
                let mut tables: Vec<String> = Vec::new();
                tables.push(table.clone());
                assert(texts(tables@) =~= seq![table@]);
                let mapping: Result<TypeTables, RecordResolveError> = Ok(
                    TypeTables { tables, source: "explicit_table".to_owned() },
                );
                match NumberLookup::start(selector.number, mapping) {
                    Ok(lookup) => Ok(
                        Resolution::Number { given: number, lookup, scope: Some(table) },
                    ),
                    Err(e) => Err(e),
                }
            },
            None => Ok(Resolution::Prefix { given: number, selector }),
        }
    }

    fn enter_record(
        &mut self,
        sys_id: String,
        scope: Option<String>,
        cursor: Option<String>,
        now: u64,
    ) -> (r: Result<Resolution, RecordResolveError>)
        requires
            old(self).well_formed(),
        ensures
            final(self).well_formed(),
            final(self).names == old(self).names,
            final(self).documents == old(self).documents,
            r is Ok ==> r->Ok_0.well_formed(),
            record_entered(
                *old(self),
                *final(self),
                sys_id@,
                text_of(scope),
                text_of(cursor),
                now,
                r,
            ),
    {
        match scope {
            Some(table) => match check_scope(table.as_str()) {
                Ok(()) => Ok(Resolution::Scoped { sys_id, table, cursor }),
                Err(e) => Err(e),
            },
            None => {
                let opened: Result<SearchState, RecordResolveError> = open_search(
                    &mut self.searches,
                    &cursor,
                    sys_id.as_str(),
                    now,
                );
                assert(search_opened(
                    old(self).searches,
                    self.searches,
                    text_of(cursor),
                    sys_id@,
                    now,
                    opened,
                ));
                match opened {
                    Ok(state) => {
                        let search: IdSearch = IdSearch::begin(state);
                        proof {
                            calls_stay_in_budget(state@, PROBE_BUDGET as int, search);
                        }
                        Ok(Resolution::Id { search, cursor })
                    },
                    Err(e) => Err(e),
                }
            },
        }
    }

    fn enter_id(
        &mut self,
        sys_id: String,
        scope: Option<String>,
        cursor: Option<String>,
        now: u64,
    ) -> (r: Result<Resolution, RecordResolveError>)
        requires
            old(self).well_formed(),
        ensures
            final(self).well_formed(),
            r is Ok ==> r->Ok_0.well_formed(),
            id_entered(
                *old(self),
                *final(self),
                sys_id@,
                text_of(scope),
                text_of(cursor),
                now,
                r,
            ),
    {
        let ghost before = *self;
        if let Some(c) = &cursor {
            let page: Option<Result<DocumentPage, RecordResolveError>> = replay_document(
                &mut self.documents,
                c.as_str(),
                sys_id.as_str(),
                now,
            );
            let ghost given = text_of(cursor);
            let ghost token = choose|token: String| #[trigger]
                replayed(
                    before.documents.entries@,
                    self.documents.entries@,
                    c@,
                    sys_id@,
                    now,
                    token,
                    page,
                );
            assert(replayed(
                before.documents.entries@,
                self.documents.entries@,
                given->0,
                sys_id@,
                now,
                token,
                page,
            ));
            match page {
                Some(Ok(p)) => {
                    return Ok(Resolution::Done(RecordResolution::Document(p)));
                },
                Some(Err(e)) => {
                    return Err(e);
                },
                None => {},
            }
        } else {
            self.documents.expire(now);
            proof {
                lemma_live_documents(before.documents.entries@, now);
            }
        }
        self.enter_record(sys_id, scope, cursor, now)
    }

    /// Begins a lookup with one selector, in a scope.
    fn enter(&mut self, input: RecordResolveInput, scope: Option<String>, now: u64) -> (r: Result<
        Resolution,
        RecordResolveError,
    >)
        requires
            old(self).well_formed(),
            input.selectors() == 1,
        ensures
            final(self).well_formed(),
            r is Ok ==> r->Ok_0.well_formed(),
            entered(*old(self), *final(self), input, text_of(scope), now, r),
    {
        match route(input) {
            Ok(ResolveRoute::Name { name, cursor }) => self.enter_name(name, scope, cursor, now),
            Ok(ResolveRoute::Number { number }) => Self::enter_number(number, scope),
            Ok(ResolveRoute::SysId { sys_id, cursor }) => self.enter_id(
                sys_id,
                scope,
                cursor,
                now,
            ),
            Err(e) => Err(e),
        }
    }

    /// Begins a lookup.
    pub fn start(&mut self, input: RecordResolveInput, now: u64) -> (r: Result<
        Resolution,
        RecordResolveError,
    >)
        requires
            old(self).well_formed(),
        ensures
            final(self).well_formed(),
            r is Ok ==> r->Ok_0.well_formed(),
            started(*old(self), *final(self), input, now, r),
    {
        match begin_resolution(&input) {
            Err(e) => Err(e),
            Ok(ResolveStart::Types { selector }) => match TypeSearch::start(selector.as_str()) {
                Ok(search) => Ok(Resolution::Types(search)),
                Err(e) => Err(e),
            },
            Ok(ResolveStart::Hint { hint }) => match TypeSearch::start(hint.as_str()) {
                Ok(search) => Ok(Resolution::Hint { input, search }),
                Err(e) => Err(e),
            },
            Ok(ResolveStart::Scoped { scope }) => self.enter(input, scope, now),
        }
    }
}

/// A discovery of types at its start.
pub open spec fn discovery(selector: Seq<char>, search: TypeSearch) -> bool {
    &&& search.selector.selector@ == trim(selector)
    &&& search.selector.is_prefix ==> (search.stage matches TypeStage::Prefix { prefix, last }
        && prefix@ == trim(selector) && !last)
    &&& !search.selector.is_prefix ==> search.stage is Catalog
}

/// How a lookup begins: refused inputs change nothing; a selector of types and a
/// hint are looked up first.
pub open spec fn started(
    before: Resolver,
    after: Resolver,
    input: RecordResolveInput,
    now: u64,
    r: Result<Resolution, RecordResolveError>,
) -> bool {
    match input.refusal() {
        Some(e) => after == before && r is Err && r->Err_0@ == e,
        None => if input.selectors() == 0 {
            let selector = if input.resource_type is Some {
                input.resource_type->0@
            } else {
                input.table->0@
            };
            &&& after == before
            &&& match literal_of(selector) {
                Err(e) => r is Err && r->Err_0@ == e,
                Ok(_) => r matches Ok(Resolution::Types(search)) && discovery(selector, search),
            }
        } else if let Some(hint) = input.hint() {
            &&& after == before
            &&& match literal_of(hint) {
                Err(e) => r is Err && r->Err_0@ == e,
                Ok(_) => r matches Ok(Resolution::Hint { input: i, search }) && i == input
                    && discovery(hint, search),
            }
        } else {
            entered(before, after, input, text_of(input.table), now, r)
        },
    }
}

// --- how a lookup ends ---

/// What the answers of a settled stage come to.
pub open spec fn settled(
    before: Resolver,
    after: Resolver,
    stage: Resolution,
    now: u64,
    r: Result<Resolution, RecordResolveError>,
) -> bool {
    match stage {
        Resolution::Types(search) => after == before && r == Ok::<Resolution, RecordResolveError>(
            Resolution::Done(
                RecordResolution::TypeMatches { types: search.stage->types, complete: true },
            ),
        ),
        Resolution::Hint { input, search } => {
            let types = search.stage->types@;
            if types.len() != 1 {
                after == before && r is Err && r->Err_0@ == not_unique()
            } else if input.table is Some && input.table->0@ != types[0].table@ {
                after == before && r is Err && r->Err_0@ == ResolveErrorView::InvalidParams(
                    "table does not match resolved resource_type"@,
                )
            } else {
                entered(before, after, input, Some(types[0].table@), now, r)
            }
        },
        Resolution::Name(call) => {
            &&& after.searches == before.searches
            &&& after.documents == before.documents
            &&& exists|token: String, m: Result<NameMatches, RecordResolveError>|
                #[trigger] name_parked(
                    before.names,
                    after.names,
                    call.search,
                    call.records,
                    now,
                    token,
                    m,
                ) && (match m {
                    Ok(matches) => r == Ok::<Resolution, RecordResolveError>(
                        Resolution::Done(RecordResolution::NameMatches(matches)),
                    ),
                    Err(e) => r == Err::<Resolution, RecordResolveError>(e),
                })
        },
        Resolution::Number { given, lookup, scope } => {
            &&& after == before
            &&& match lookup.found {
                Some(row) => match number_scope_failure(row@, text_of(scope)) {
                    Some(e) => r is Err && r->Err_0@ == e,
                    None => describes(r, row, row.sys_id@, class_of(row@)->Ok_0, None),
                },
                None => match lookup.mapping_error {
                    Some(e) => r == Err::<Resolution, RecordResolveError>(e),
                    None => r == Ok::<Resolution, RecordResolveError>(
                        Resolution::Done(
                            RecordResolution::NumberNotFoundOrInaccessible { number: given },
                        ),
                    ),
                },
            }
        },
        Resolution::Id { search, cursor } => {
            &&& after.names == before.names
            &&& after.documents == before.documents
            &&& match search.stage {
                IdStage::Found { row, class } => after.searches.entries@ == (match cursor {
                    Some(c) => before.searches.entries@.filter(other_token(c@)),
                    None => before.searches.entries@,
                }) && describes(r, row, search.state.sys_id@, class@, text_of(cursor)),
                _ => exists|token: Seq<char>, end: Result<SearchEnd, RecordResolveError>|
                    #[trigger] parked(
                        before.searches,
                        after.searches,
                        text_of(cursor),
                        search.state,
                        now,
                        token,
                        end,
                    ) && search_told(search.state.sys_id, end, r),
            }
        },
        _ => false,
    }
}

/// What the caller is told of a search that found nothing yet.
pub open spec fn search_told(
    id: String,
    end: Result<SearchEnd, RecordResolveError>,
    r: Result<Resolution, RecordResolveError>,
) -> bool {
    match end {
        Ok(SearchEnd::NotFound { scanned_tables, unreadable_tables }) => r matches Ok(
            Resolution::Done(
                RecordResolution::NotFoundOrInaccessible {
                    sys_id,
                    scanned_tables: s,
                    unreadable_tables: u,
                },
            ),
        ) && sys_id@ == id@ && s == scanned_tables && u == unreadable_tables,
        Ok(SearchEnd::Searching { cursor, scanned_tables, unreadable_tables }) => r matches Ok(
            Resolution::Done(
                RecordResolution::Searching {
                    sys_id,
                    cursor: c,
                    scanned_tables: s,
                    unreadable_tables: u,
                },
            ),
        ) && sys_id@ == id@ && c == cursor && s == scanned_tables && u == unreadable_tables,
        Err(e) => r == Err::<Resolution, RecordResolveError>(e),
    }
}

proof fn lemma_parked_names(
    before: Sessions<NameSearch>,
    after: Sessions<NameSearch>,
    state: NameSearch,
    records: Vec<crate::record_name_resolver::RecordNameMatch>,
    now: u64,
    token: String,
    r: Result<NameMatches, RecordResolveError>,
)
    requires
        names_ok(before.entries@),
        state@.well_formed(),
        name_parked(before, after, state, records, now, token, r),
    ensures
        names_ok(after.entries@),
{
    lemma_live_names(before.entries@, now);
}

impl Resolver {
    /// Goes on from a stage whose answers are all there.
    pub fn settle(&mut self, stage: Resolution, now: u64) -> (r: Result<
        Resolution,
        RecordResolveError,
    >)
        requires
            old(self).well_formed(),
            stage.well_formed(),
            stage.is_settled(),
        ensures
            final(self).well_formed(),
            r is Ok ==> r->Ok_0.well_formed(),
            settled(*old(self), *final(self), stage, now, r),
    {
        match stage {
            Resolution::Types(search) => Ok(
                Resolution::Done(
                    RecordResolution::TypeMatches { types: search.finish(), complete: true },
                ),
            ),
            Resolution::Hint { input, search } => self.settle_hint(input, search, now),
            Resolution::Name(call) => self.settle_name(call, now),
            Resolution::Number { given, lookup, scope } => Self::settle_number(
                given,
                lookup,
                scope,
            ),
            Resolution::Id { search, cursor } => self.settle_id(search, cursor, now),
            other => Ok(other),
        }
    }

    fn settle_hint(&mut self, input: RecordResolveInput, search: TypeSearch, now: u64) -> (r: Result<
        Resolution,
        RecordResolveError,
    >)
        requires
            old(self).well_formed(),
            input.selectors() == 1,
            search.stage is Done,
        ensures
            final(self).well_formed(),
            r is Ok ==> r->Ok_0.well_formed(),
            settled(*old(self), *final(self), Resolution::Hint { input, search }, now, r),
    {
        let resolved: RecordType = match unique_type(search.finish()) {
            Ok(t) => t,
            Err(e) => {
                return Err(e);
            },
        };
        match hinted_scope(&input.table, resolved) {
            Ok(scope) => self.enter(input, scope, now),
            Err(e) => Err(e),
        }
    }

    fn settle_name(&mut self, call: NameCall, now: u64) -> (r: Result<
        Resolution,
        RecordResolveError,
    >)
        requires
            old(self).well_formed(),
            call.well_formed(),
        ensures
            final(self).well_formed(),
            r is Ok ==> r->Ok_0.well_formed(),
            settled(*old(self), *final(self), Resolution::Name(call), now, r),
    {
        let m: Result<NameMatches, RecordResolveError> = park_name(
            &mut self.names,
            call.search,
            call.records,
            now,
        );
        proof {
            let token = choose|token: String| #[trigger]
                name_parked(
                    old(self).names,
                    self.names,
                    call.search,
                    call.records,
                    now,
                    token,
                    m,
                );
            lemma_parked_names(
                old(self).names,
                self.names,
                call.search,
                call.records,
                now,
                token,
                m,
            );
        }
        match m {
            Ok(matches) => Ok(Resolution::Done(RecordResolution::NameMatches(matches))),
            Err(e) => Err(e),
        }
    }

    fn settle_number(given: String, lookup: NumberLookup, scope: Option<String>) -> (r: Result<
        Resolution,
        RecordResolveError,
    >)
        requires
            lookup@.well_formed(),
        ensures
            r is Ok ==> r->Ok_0.well_formed(),
            forall|store: Resolver, now: u64| #[trigger]
                settled(store, store, Resolution::Number { given, lookup, scope }, now, r),
    {
        match lookup.finish() {
            Err(e) => Err(e),
            Ok(None) => Ok(
                Resolution::Done(RecordResolution::NumberNotFoundOrInaccessible { number: given }),
            ),
            Ok(Some(row)) => match check_number_scope(&row, &scope) {
                Err(e) => Err(e),
                Ok(()) => match actual_table(&row) {
                    Ok(class) => {
                        let id: String = row.sys_id.clone();
                        Ok(describe(row, id, class, None))
                    },
                    Err(e) => Err(e),
                },
            },
        }
    }

    fn settle_id(&mut self, search: IdSearch, cursor: Option<String>, now: u64) -> (r: Result<
        Resolution,
        RecordResolveError,
    >)
        requires
            old(self).well_formed(),
            search.well_formed(),
            search.stage is Found || search.stage is Spent,
        ensures
            final(self).well_formed(),
            r is Ok ==> r->Ok_0.well_formed(),
            settled(*old(self), *final(self), Resolution::Id { search, cursor }, now, r),
    {
        let IdSearch { state, remaining, stage } = search;
        match stage {
            IdStage::Found { row, class } => {
                if let Some(c) = &cursor {
                    self.searches.remove(c.as_str());
                }
                Ok(describe(row, state.sys_id, class, cursor))
            },
            _ => {
                let id: String = state.sys_id.clone();
                let ghost given = text_of(cursor);
                let ghost kept = state;
                let end: Result<SearchEnd, RecordResolveError> = park(
                    &mut self.searches,
                    cursor,
                    state,
                    now,
                );
                let ghost told = end;
                proof {
                    let token = choose|token: Seq<char>| #[trigger]
                        parked(old(self).searches, self.searches, given, kept, now, token, end);
                    assert(parked(
                        old(self).searches,
                        self.searches,
                        given,
                        search.state,
                        now,
                        token,
                        end,
                    ));
                }
                let r: Result<Resolution, RecordResolveError> = match end {
                    Ok(SearchEnd::NotFound { scanned_tables, unreadable_tables }) => Ok(
                        Resolution::Done(
                            RecordResolution::NotFoundOrInaccessible {
                                sys_id: id,
                                scanned_tables,
                                unreadable_tables,
                            },
                        ),
                    ),
                    Ok(SearchEnd::Searching { cursor, scanned_tables, unreadable_tables }) => Ok(
                        Resolution::Done(
                            RecordResolution::Searching {
                                sys_id: id,
                                cursor,
                                scanned_tables,
                                unreadable_tables,
                            },
                        ),
                    ),
                    Err(e) => Err(e),
                };
                assert(search_told(search.state.sys_id, told, r));
                r
            },
        }
    }

    /// Takes in the record written out, and answers with it.
    pub fn take_content(&mut self, found: FoundRecord, content: String, now: u64) -> (r: Result<
        RecordResolution,
        RecordResolveError,
    >)
        requires
            old(self).well_formed(),
        ensures
            final(self).well_formed(),
            final(self).searches == old(self).searches,
            final(self).names == old(self).names,
            exists|token: String, page_token: String, d: Result<Delivery, RecordResolveError>| #[trigger]
                delivered(
                    old(self).documents,
                    final(self).documents,
                    ResolvedContent {
                        sys_id: found.sys_id,
                        table: found.table,
                        resource_type: found.resource_type,
                        content,
                    },
                    found.cursor,
                    now,
                    token,
                    page_token,
                    d,
                ) && content_told(d, r),
    {
        let record = ResolvedContent {
            sys_id: found.sys_id,
            table: found.table,
            resource_type: found.resource_type,
            content,
        };
        let d: Result<Delivery, RecordResolveError> = deliver(
            &mut self.documents,
            record,
            found.cursor,
            now,
        );
        let ghost told = d;
        proof {
            let (token, page_token) = choose|token: String, page_token: String| #[trigger]
                delivered(
                    old(self).documents,
                    self.documents,
                    record,
                    found.cursor,
                    now,
                    token,
                    page_token,
                    d,
                );
            assert(delivered(
                old(self).documents,
                self.documents,
                record,
                found.cursor,
                now,
                token,
                page_token,
                told,
            ));
        }
        let r: Result<RecordResolution, RecordResolveError> = match d {
            Ok(Delivery::Inline(record)) => Ok(RecordResolution::Resolved { record }),
            Ok(Delivery::Paged(page)) => Ok(RecordResolution::Document(page)),
            Err(e) => Err(e),
        };
        assert(content_told(told, r));
        r
    }
}

/// What the caller is told of a record that was written out.
pub open spec fn content_told(
    d: Result<Delivery, RecordResolveError>,
    r: Result<RecordResolution, RecordResolveError>,
) -> bool {
    match d {
        Ok(Delivery::Inline(record)) => r == Ok::<RecordResolution, RecordResolveError>(
            RecordResolution::Resolved { record },
        ),
        Ok(Delivery::Paged(page)) => r == Ok::<RecordResolution, RecordResolveError>(
            RecordResolution::Document(page),
        ),
        Err(e) => r == Err::<RecordResolution, RecordResolveError>(e),
    }
}

} // verus!
