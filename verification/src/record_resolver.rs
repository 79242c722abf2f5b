//! Identifier discovery. A caller gives a name, a number or a sys_id; which
//! table the record is in is found out from the table catalog.
use vstd::prelude::*;
use vstd::string::*;

use crate::catalog::{catalog_failure, last_name, new_names, read_catalog};
use crate::document::{fresh_token, MAX_SESSIONS};
use crate::listing::{first_failure, lemma_failure_at, lemma_no_failure};
use crate::query::{Query, QueryView};
use crate::record_error::{
    actual_table, check_result, class_of, identity_failure, integrity, invalid, unavailable,
    validate_identity, RecordResolveError, ResolveErrorView,
};
use crate::record_number::row_reply;
use crate::record_types::{reply_view, RecordType};
use crate::row::{row_views, Failure, Page, PageView, Row, RowView};
use crate::session::{live_entry, other_token, placed, Session, Sessions};
use crate::tables::{bad_sys_id, normalize_record_lookup_sys_id, sys_id_of};
use crate::text::{
    copy_list, identifier, is_identifier, names_of, same, strings_of, text_of, texts,
};

verus! {

/// The tables that are asked first.
pub const PRIORITY_TABLES: [&'static str; 8] = [
    "task",
    "cmdb_ci",
    "sys_user",
    "sys_user_group",
    "kb_knowledge",
    "sys_metadata",
    "resource_plan",
    "sysapproval_approver",
];

/// How many catalog entries are read at once.
pub const CATALOG_PAGE: u32 = 32;

/// How many tables one call may ask.
pub const PROBE_BUDGET: usize = 32;

/// How many tables are asked at the same time.
pub const CONCURRENCY: usize = 8;

/// What a caller asks for.
#[derive(Debug, Clone)]
pub struct RecordResolveInput {
    pub sys_id: Option<String>,
    pub number: Option<String>,
    pub resource_type: Option<String>,
    pub name: Option<String>,
    pub table: Option<String>,
    pub cursor: Option<String>,
}

pub open spec fn given(o: Option<String>) -> int {
    if o is Some {
        1
    } else {
        0
    }
}

impl RecordResolveInput {
    /// How many of name, number and sys_id are given.
    pub open spec fn selectors(self) -> int {
        given(self.sys_id) + given(self.name) + given(self.number)
    }

    /// Why an input is refused before anything is asked.
    pub open spec fn refusal(self) -> Option<ResolveErrorView> {
        if self.selectors() > 1 {
            Some(ResolveErrorView::InvalidParams("provide one of name, number, or sys_id"@))
        } else if self.selectors() == 0 && (self.cursor is Some || (self.resource_type is Some
            && self.table is Some)) {
            Some(
                ResolveErrorView::InvalidParams(
                    "type discovery requires only resource_type or table"@,
                ),
            )
        } else if self.selectors() == 0 && self.resource_type is None && self.table is None {
            Some(
                ResolveErrorView::InvalidParams(
                    "name, number, sys_id, or resource_type is required"@,
                ),
            )
        } else {
            None
        }
    }

    /// The type that a record must have, unless any record will do.
    pub open spec fn hint(self) -> Option<Seq<char>> {
        match self.resource_type {
            Some(t) if t@ != "record"@ => Some(t@),
            _ => None,
        }
    }
}

/// Where a resolution begins.
pub enum ResolveStart {
    /// Find out which types a selector stands for.
    Types { selector: String },
    /// Find out the one type that the hint stands for.
    Hint { hint: String },
    /// Go on with the scope that was given, if any.
    Scoped { scope: Option<String> },
}

/// Sorts out an input: at most one selector, and one of the ways to begin.
pub fn begin_resolution(input: &RecordResolveInput) -> (r: Result<ResolveStart, RecordResolveError>)
    ensures
        match input.refusal() {
            Some(e) => r is Err && r->Err_0@ == e,
            None => r is Ok && (if input.selectors() == 0 {
                r->Ok_0 matches ResolveStart::Types { selector } && Some(selector@) == (
                if input.resource_type is Some {
                    text_of(input.resource_type)
                } else {
                    text_of(input.table)
                })
            } else if input.hint() is Some {
                r->Ok_0 matches ResolveStart::Hint { hint } && input.hint() == Some(hint@)
            } else {
                r->Ok_0 matches ResolveStart::Scoped { scope } && text_of(scope) == text_of(
                    input.table,
                )
            }),
        },
{
    let mut selectors: usize = 0;
    if input.sys_id.is_some() {
        selectors += 1;
    }
    if input.name.is_some() {
        selectors += 1;
    }
    if input.number.is_some() {
        selectors += 1;
    }
    if selectors > 1 {
        return Err(invalid("provide one of name, number, or sys_id"));
    }
    if selectors == 0 {
        if input.cursor.is_some() || (input.resource_type.is_some() && input.table.is_some()) {
            return Err(invalid("type discovery requires only resource_type or table"));
        }
        if let Some(t) = &input.resource_type {
            return Ok(ResolveStart::Types { selector: t.clone() });
        }
        if let Some(t) = &input.table {
            return Ok(ResolveStart::Types { selector: t.clone() });
        }
        return Err(invalid("name, number, sys_id, or resource_type is required"));
    }
    if let Some(t) = &input.resource_type {
        if !same(t.as_str(), "record") {
            return Ok(ResolveStart::Hint { hint: t.clone() });
        }
    }
    Ok(ResolveStart::Scoped { scope: input.table.clone() })
}

/// The scope once the hint is resolved. A table that was given as well must agree.
pub fn hinted_scope(table: &Option<String>, resolved: RecordType) -> (r: Result<
    Option<String>,
    RecordResolveError,
>)
    ensures
        if table is Some && table->0@ != resolved.table@ {
            r is Err && r->Err_0@ == ResolveErrorView::InvalidParams(
                "table does not match resolved resource_type"@,
            )
        } else {
            r == Ok::<Option<String>, RecordResolveError>(Some(resolved.table))
        },
{
    if let Some(t) = table {
        if !same(t.as_str(), resolved.table.as_str()) {
            return Err(invalid("table does not match resolved resource_type"));
        }
    }
    Ok(Some(resolved.table))
}

/// Which search answers an input with exactly one selector.
pub enum ResolveRoute {
    Name { name: String, cursor: Option<String> },
    Number { number: String },
    SysId { sys_id: String, cursor: Option<String> },
}

pub fn route(input: RecordResolveInput) -> (r: Result<ResolveRoute, RecordResolveError>)
    requires
        input.selectors() == 1,
    ensures
        match input.name {
            Some(name) => r == Ok::<ResolveRoute, RecordResolveError>(
                ResolveRoute::Name { name, cursor: input.cursor },
            ),
            None => match input.number {
                Some(number) => if input.cursor is Some {
                    r is Err && r->Err_0@ == ResolveErrorView::InvalidParams(
                        "continue a numbered record document with its returned sys_id and cursor"@,
                    )
                } else {
                    r == Ok::<ResolveRoute, RecordResolveError>(ResolveRoute::Number { number })
                },
                None => match sys_id_of(input.sys_id->0@) {
                    Some(id) => r matches Ok(ResolveRoute::SysId { sys_id, cursor }) && sys_id@
                        == id && cursor == input.cursor,
                    None => r is Err && r->Err_0@ == ResolveErrorView::InvalidParams(bad_sys_id()),
                },
            },
        },
{
    if let Some(name) = input.name {
        return Ok(ResolveRoute::Name { name, cursor: input.cursor });
    }
    if let Some(number) = input.number {
        if input.cursor.is_some() {
            return Err(
                invalid("continue a numbered record document with its returned sys_id and cursor"),
            );
        }
        return Ok(ResolveRoute::Number { number });
    }
    match input.sys_id {
        Some(sys_id) => match normalize_record_lookup_sys_id(sys_id.as_str()) {
            Ok(id) => Ok(ResolveRoute::SysId { sys_id: id, cursor: input.cursor }),
            Err(message) => Err(RecordResolveError::InvalidParams(message)),
        },
        None => Err(invalid("name or sys_id is required")),
    }
}

/// A number that was looked up in a scope must belong to it.
pub open spec fn number_scope_failure(row: RowView, scope: Option<Seq<char>>) -> Option<
    ResolveErrorView,
> {
    if scope is Some && scope->0 != row.table {
        Some(ResolveErrorView::InvalidParams("number does not match the resolved type"@))
    } else {
        None
    }
}

pub fn check_number_scope(row: &Row, scope: &Option<String>) -> (r: Result<(), RecordResolveError>)
    ensures
        check_result(r, number_scope_failure(row@, text_of(*scope))),
{
    if let Some(table) = scope {
        if !same(table.as_str(), row.table.as_str()) {
            return Err(invalid("number does not match the resolved type"));
        }
    }
    Ok(())
}

pub open spec fn hint_mismatch() -> ResolveErrorView {
    ResolveErrorView::InvalidParams(
        "sys_id does not match the resolved type; omit the hint to discover its actual class"@,
    )
}

/// What the row says that a scoped read of a sys_id brought.
pub open spec fn scoped_failure(
    reply: Result<RowView, Failure>,
    sys_id: Seq<char>,
    table: Seq<char>,
) -> Option<ResolveErrorView> {
    match reply {
        Err(_) => Some(
            ResolveErrorView::Unavailable("record table is unreadable or record was not found"@),
        ),
        Ok(row) => match identity_failure(row, sys_id) {
            Some(e) => Some(e),
            None => match class_of(row) {
                Err(e) => Some(e),
                Ok(class) => if class != table {
                    Some(hint_mismatch())
                } else {
                    None
                },
            },
        },
    }
}

/// A scope is asked only where it is a table identifier.
pub fn check_scope(table: &str) -> (r: Result<(), RecordResolveError>)
    ensures
        r is Ok <==> is_identifier(table@),
        r is Err ==> r->Err_0@ == ResolveErrorView::InvalidParams("invalid table identifier"@),
{
    if identifier(table) {
        Ok(())
    } else {
        Err(invalid("invalid table identifier"))
    }
}

pub fn scoped_record(reply: Result<Row, Failure>, sys_id: &str, table: &str) -> (r: Result<
    Row,
    RecordResolveError,
>)
    ensures
        match r {
            Ok(row) => scoped_failure(row_reply(reply), sys_id@, table@) is None && reply
                == Ok::<Row, Failure>(row),
            Err(e) => scoped_failure(row_reply(reply), sys_id@, table@) == Some(e@),
        },
{
    let row: Row = match reply {
        Ok(row) => row,
        Err(_) => return Err(unavailable("record table is unreadable or record was not found")),
    };
    if let Err(e) = validate_identity(&row, sys_id) {
        return Err(e);
    }
    match actual_table(&row) {
        Err(e) => Err(e),
        Ok(class) => if same(class.as_str(), table) {
            Ok(row)
        } else {
            Err(
                invalid(
                    "sys_id does not match the resolved type; omit the hint to discover its actual class",
                ),
            )
        },
    }
}

/// A search for a sys_id over all tables. The tables in `pending` wait to be
/// asked; the catalog has been read up to the name `after`.
pub struct SearchState {
    pub sys_id: String,
    pub pending: Vec<String>,
    pub after: String,
    pub catalog_complete: bool,
    pub scanned: usize,
    pub unreadable: usize,
}

#[verifier::ext_equal]
pub struct SearchView {
    pub sys_id: Seq<char>,
    pub pending: Seq<Seq<char>>,
    pub after: Seq<char>,
    pub catalog_complete: bool,
    pub scanned: usize,
    pub unreadable: usize,
}

impl View for SearchState {
    type V = SearchView;

    open spec fn view(&self) -> SearchView {
        SearchView {
            sys_id: self.sys_id@,
            pending: texts(self.pending@),
            after: self.after@,
            catalog_complete: self.catalog_complete,
            scanned: self.scanned,
            unreadable: self.unreadable,
        }
    }
}

pub open spec fn capped_sum(a: usize, b: int) -> usize {
    if a + b > usize::MAX {
        usize::MAX
    } else {
        (a + b) as usize
    }
}

pub open spec fn smaller(a: int, b: int) -> int {
    if a < b {
        a
    } else {
        b
    }
}

/// How many tables are asked next.
pub open spec fn probe_count(pending: int, remaining: int) -> int {
    smaller(smaller(CONCURRENCY as int, remaining), pending)
}

impl SearchView {
    pub open spec fn fresh(sys_id: Seq<char>) -> SearchView {
        SearchView {
            sys_id,
            pending: names_of(PRIORITY_TABLES@),
            after: ""@,
            catalog_complete: false,
            scanned: 0,
            unreadable: 0,
        }
    }

    /// Every table has been asked.
    pub open spec fn exhausted(self) -> bool {
        self.pending.len() == 0 && self.catalog_complete
    }

    pub open spec fn catalog_query(self) -> QueryView {
        let q = QueryView::of("sys_db_object"@).field("sys_id"@).field("name"@).ascending(
            "name"@,
        ).limit(CATALOG_PAGE);
        if self.after.len() > 0 {
            q.greater_than("name"@, self.after)
        } else {
            q
        }
    }

    /// After a page of the catalog.
    pub open spec fn after_catalog(self, reply: Result<PageView, Failure>) -> Result<
        SearchView,
        ResolveErrorView,
    > {
        match reply {
            Err(Failure::TimedOut) => Err(
                ResolveErrorView::Unavailable(
                    "table catalog discovery timed out; retry this lookup"@,
                ),
            ),
            Err(_) => Err(
                ResolveErrorView::Unavailable(
                    "table catalog is unavailable to the configured identity; resolution cannot complete"@,
                ),
            ),
            Ok(page) => if page.partial {
                Err(ResolveErrorView::Unavailable("table catalog returned a partial page"@))
            } else {
                match catalog_failure(self.after, page.rows, true) {
                    Some(e) => Err(e),
                    None => Ok(
                        SearchView {
                            pending: self.pending + new_names(
                                page.rows,
                                names_of(PRIORITY_TABLES@),
                            ),
                            after: last_name(self.after, page.rows),
                            catalog_complete: page.rows.len() < CATALOG_PAGE,
                            ..self
                        },
                    ),
                }
            },
        }
    }

    /// After the next tables were taken to be asked.
    pub open spec fn after_taking(self, count: int) -> SearchView {
        SearchView {
            pending: self.pending.subrange(count, self.pending.len() as int),
            scanned: capped_sum(self.scanned, count),
            ..self
        }
    }
}

/// What the search does next.
pub enum SearchAction {
    Catalog(Query),
    Probe { count: usize },
    Stop,
}

impl SearchState {
    pub fn fresh(sys_id: &str) -> (r: SearchState)
        ensures
            r@ == SearchView::fresh(sys_id@),
    {
        SearchState {
            sys_id: sys_id.to_owned(),
            pending: strings_of(&PRIORITY_TABLES),
            after: "".to_owned(),
            catalog_complete: false,
            scanned: 0,
            unreadable: 0,
        }
    }

    pub fn copy(&self) -> (r: SearchState)
        ensures
            r@ == self@,
    {
        SearchState {
            sys_id: self.sys_id.clone(),
            pending: copy_list(&self.pending),
            after: self.after.clone(),
            catalog_complete: self.catalog_complete,
            scanned: self.scanned,
            unreadable: self.unreadable,
        }
    }

    /// What to do with `remaining` of the budget left: ask the tables that wait,
    /// or read on in the catalog, or stop.
    pub fn action(&self, remaining: usize) -> (r: SearchAction)
        ensures
            match r {
                SearchAction::Stop => remaining == 0 || self@.exhausted(),
                SearchAction::Catalog(q) => remaining > 0 && self@.pending.len() == 0
                    && !self@.catalog_complete && q@ == self@.catalog_query(),
                SearchAction::Probe { count } => remaining > 0 && self@.pending.len() > 0 && count
                    == probe_count(self@.pending.len() as int, remaining as int),
            },
    {
        if remaining == 0 {
            return SearchAction::Stop;
        }
        if self.pending.is_empty() {
            if self.catalog_complete {
                return SearchAction::Stop;
            }
            let q: Query = Query::of("sys_db_object").field("sys_id").field("name").ascending(
                "name",
            ).limit(CATALOG_PAGE);
            return SearchAction::Catalog(
                if self.after.as_str().is_empty() {
                    q
                } else {
                    q.greater_than("name", self.after.as_str())
                },
            );
        }
        let mut count: usize = CONCURRENCY;
        if remaining < count {
            count = remaining;
        }
        if self.pending.len() < count {
            count = self.pending.len();
        }
        SearchAction::Probe { count }
    }

    /// Reads a catalog page. A page that brings no table to ask still costs one
    /// of the budget.
    pub fn after_catalog(self, reply: Result<Page, Failure>, remaining: usize) -> (r: Result<
        (SearchState, usize),
        RecordResolveError,
    >)
        requires
            remaining > 0,
        ensures
            match self@.after_catalog(reply_view(reply)) {
                Err(e) => r is Err && r->Err_0@ == e,
                Ok(next) => r is Ok && r->Ok_0.0@ == next && r->Ok_0.1 == (if next.pending.len()
                    == 0 {
                    (remaining - 1) as usize
                } else {
                    remaining
                }),
            },
    {
        let page: Page = match reply {
            Ok(page) => page,
            Err(Failure::TimedOut) => return Err(
                unavailable("table catalog discovery timed out; retry this lookup"),
            ),
            Err(_) => return Err(
                unavailable(
                    "table catalog is unavailable to the configured identity; resolution cannot complete",
                ),
            ),
        };
        if page.partial {
            return Err(unavailable("table catalog returned a partial page"));
        }
        let mut next = self;
        next.catalog_complete = page.rows.len() < CATALOG_PAGE as usize;
        let mut pending: Vec<String> = next.pending;
        let mut after: String = next.after;
        let read: Result<(), RecordResolveError> = read_catalog(
            &mut pending,
            &mut after,
            &page.rows,
            &PRIORITY_TABLES,
            true,
        );
        if let Err(e) = read {
            return Err(e);
        }
        let empty: bool = pending.is_empty();
        let state = SearchState {
            sys_id: next.sys_id,
            pending,
            after,
            catalog_complete: next.catalog_complete,
            scanned: next.scanned,
            unreadable: next.unreadable,
        };
        Ok(
            (
                state,
                if empty {
                    remaining - 1
                } else {
                    remaining
                },
            ),
        )
    }

    /// Takes the next tables; they count as asked.
    pub fn take(self, count: usize) -> (r: (Vec<String>, SearchState))
        requires
            count <= self@.pending.len(),
        ensures
            texts(r.0@) == self@.pending.subrange(0, count as int),
            r.1@ == self@.after_taking(count as int),
    {
        let ghost before = self@.pending;
        let mut state = self;
        let mut taken: Vec<String> = Vec::new();
        let ghost all = state.pending@;
        let mut rest: Vec<String> = state.pending;
        let mut i: usize = 0;
        assert(all.subrange(0, all.len() as int) =~= all);
        while i < count
            invariant
                i <= count <= all.len(),
                taken@ == all.subrange(0, i as int),
                rest@ == all.subrange(i as int, all.len() as int),
            decreases count - i,
        {
            taken.push(rest.remove(0));
            i += 1;
            assert(taken@ =~= all.subrange(0, i as int));
            assert(rest@ =~= all.subrange(i as int, all.len() as int));
        }
        let next = SearchState {
            sys_id: state.sys_id,
            pending: rest,
            after: state.after,
            catalog_complete: state.catalog_complete,
            scanned: state.scanned.saturating_add(count),
            unreadable: state.unreadable,
        };
        proof {
            assert(texts(taken@) =~= before.subrange(0, count as int));
            assert(texts(rest@) =~= before.subrange(count as int, before.len() as int));
        }
        (taken, next)
    }
}

/// What asking one table brought.
pub enum Probe {
    Found(Row),
    /// The table has no such record.
    Missing,
    /// The table could not be read.
    Unreadable,
    /// The request itself was lost.
    Lost,
}

/// What the reply of one table means: only the answer that there is no such record
/// says that the table has none.
pub open spec fn is_probe_of(reply: Result<Row, Failure>, probe: Probe) -> bool {
    match reply {
        Ok(row) => probe == Probe::Found(row),
        Err(Failure::Api(s)) => if s == 404 {
            probe is Missing
        } else {
            probe is Unreadable
        },
        Err(_) => probe is Unreadable,
    }
}

pub fn probe_of(reply: Result<Row, Failure>) -> (r: Probe)
    ensures
        is_probe_of(reply, r),
{
    match reply {
        Ok(row) => Probe::Found(row),
        Err(Failure::Api(404)) => Probe::Missing,
        Err(_) => Probe::Unreadable,
    }
}

pub open spec fn found_rows(probes: Seq<Probe>) -> Seq<RowView>
    decreases probes.len(),
{
    if probes.len() == 0 {
        Seq::empty()
    } else {
        match probes.last() {
            Probe::Found(row) => found_rows(probes.drop_last()).push(row@),
            _ => found_rows(probes.drop_last()),
        }
    }
}

pub open spec fn unreadable_count(probes: Seq<Probe>) -> int
    decreases probes.len(),
{
    if probes.len() == 0 {
        0
    } else {
        unreadable_count(probes.drop_last()) + (if probes.last() is Unreadable {
            1int
        } else {
            0
        })
    }
}

pub open spec fn any_lost(probes: Seq<Probe>) -> bool {
    exists|i: int| 0 <= i < probes.len() && (#[trigger] probes[i]) is Lost
}

/// How many replies are failures other than that there is no such record.
pub open spec fn failed_replies(replies: Seq<Result<Row, Failure>>) -> int
    decreases replies.len(),
{
    if replies.len() == 0 {
        0
    } else {
        failed_replies(replies.drop_last()) + (if replies.last() is Err && replies.last()->Err_0
            != Failure::Api(404) {
            1int
        } else {
            0
        })
    }
}

/// A table that says that it has no such record is not counted as unreadable; any
/// other failure is, once.
pub proof fn missing_records_are_not_counted(
    replies: Seq<Result<Row, Failure>>,
    probes: Seq<Probe>,
)
    requires
        replies.len() == probes.len(),
        forall|i: int| 0 <= i < replies.len() ==> is_probe_of(replies[i], #[trigger] probes[i]),
    ensures
        unreadable_count(probes) == failed_replies(replies),
        !any_lost(probes),
    decreases replies.len(),
{
    if replies.len() > 0 {
        let front = probes.drop_last();
        assert forall|i: int| 0 <= i < front.len() implies is_probe_of(
            replies.drop_last()[i],
            #[trigger] front[i],
        ) by {
            assert(is_probe_of(replies[i], probes[i]));
        }
        missing_records_are_not_counted(replies.drop_last(), front);
        assert(is_probe_of(replies[replies.len() - 1], probes[replies.len() - 1]));
    }
    assert forall|i: int| 0 <= i < probes.len() implies !((#[trigger] probes[i]) is Lost) by {
        assert(is_probe_of(replies[i], probes[i]));
    }
}

/// Sorts the answers of the tables that were asked: the rows that were found,
/// and how many more tables could not be read. A lost request ends the search.
#[verifier::loop_isolation(false)]
pub fn sort_probes(probes: Vec<Probe>, unreadable: usize) -> (r: Result<
    (Vec<Row>, usize),
    RecordResolveError,
>)
    ensures
        if any_lost(probes@) {
            r is Err && r->Err_0@ == ResolveErrorView::Unavailable(
                "record discovery worker failed"@,
            )
        } else {
            r is Ok && row_views(r->Ok_0.0@) == found_rows(probes@) && r->Ok_0.1 == capped_sum(
                unreadable,
                unreadable_count(probes@),
            )
        },
{
    let ghost all = probes@;
    let mut rest: Vec<Probe> = probes;
    let mut rows: Vec<Row> = Vec::new();
    let mut count: usize = unreadable;
    let ghost mut done: int = 0;
    assert(all.subrange(0, all.len() as int) =~= all);
    assert(row_views(rows@) =~= found_rows(all.subrange(0, 0)));
    while rest.len() > 0
        invariant
            0 <= done <= all.len(),
            rest@ == all.subrange(done, all.len() as int),
            forall|i: int| 0 <= i < done ==> !((#[trigger] all[i]) is Lost),
            row_views(rows@) == found_rows(all.subrange(0, done)),
            count == capped_sum(unreadable, unreadable_count(all.subrange(0, done))),
            0 <= unreadable_count(all.subrange(0, done)) <= done,
        decreases rest@.len(),
    {
        let probe: Probe = rest.remove(0);
        assert(probe == all[done]);
        proof {
            let longer = all.subrange(0, done + 1);
            assert(longer.drop_last() =~= all.subrange(0, done));
            assert(longer.last() == probe);
            done = done + 1;
            assert(rest@ =~= all.subrange(done, all.len() as int));
        }
        match probe {
            Probe::Found(row) => {
                let ghost before = rows@;
                rows.push(row);
                assert(row_views(rows@) =~= row_views(before).push(row@));
            },
            Probe::Missing => {},
            Probe::Unreadable => {
                count = count.saturating_add(1);
            },
            Probe::Lost => {
                assert(all[done - 1] is Lost);
                return Err(unavailable("record discovery worker failed"));
            },
        }
    }
    assert(all.subrange(0, done) =~= all);
    Ok((rows, count))
}

/// What the rows that answered for a sys_id settle.
pub struct Verdict {
    /// The first of them.
    pub row: Row,
    /// The class that all of them agree on.
    pub class: String,
    /// Whether the row was read from a parent table, so that it has to be read again.
    pub reread: bool,
}

pub open spec fn match_failure(row: RowView, sys_id: Seq<char>) -> Option<ResolveErrorView> {
    match identity_failure(row, sys_id) {
        Some(e) => Some(e),
        None => match class_of(row) {
            Err(e) => Some(e),
            Ok(_) => None,
        },
    }
}

pub open spec fn match_check(sys_id: Seq<char>) -> spec_fn(RowView) -> Option<ResolveErrorView> {
    |row: RowView| match_failure(row, sys_id)
}

pub open spec fn classes_agree(rows: Seq<RowView>) -> bool {
    forall|i: int| 0 <= i < rows.len() ==> class_of(#[trigger] rows[i]) == class_of(rows[0])
}

/// Judges the rows that answered for a sys_id. Each must carry it and have a
/// class, and they must all have the same class.
#[verifier::loop_isolation(false)]
pub fn judge_matches(rows: Vec<Row>, sys_id: &str) -> (r: Result<Verdict, RecordResolveError>)
    requires
        rows@.len() > 0,
    ensures
        match first_failure(row_views(rows@), match_check(sys_id@)) {
            Some(e) => r is Err && r->Err_0@ == e,
            None => if classes_agree(row_views(rows@)) {
                r is Ok && r->Ok_0.row == rows@[0] && class_of(rows@[0]@) == Ok::<
                    Seq<char>,
                    ResolveErrorView,
                >(r->Ok_0.class@) && r->Ok_0.reread == (r->Ok_0.class@ != rows@[0]@.table)
            } else {
                r is Err && r->Err_0@ == ResolveErrorView::Integrity(
                    "sys_id returned conflicting object classes; resolution is ambiguous"@,
                )
            },
        },
{
    let ghost all = row_views(rows@);
    let ghost check = match_check(sys_id@);
    let mut agree: bool = true;
    let mut class: Option<String> = None;
    let mut i: usize = 0;
    while i < rows.len()
        invariant
            i <= rows@.len(),
            forall|j: int| 0 <= j < i ==> check(#[trigger] all[j]) is None,
            i == 0 ==> class is None && agree,
            i > 0 ==> class is Some && class_of(all[0]) == Ok::<Seq<char>, ResolveErrorView>(
                class->0@,
            ),
            agree == (forall|j: int| 0 <= j < i ==> class_of(#[trigger] all[j]) == class_of(all[0])),
        decreases rows@.len() - i,
    {
        assert(all[i as int] == rows@[i as int]@);
        proof {
            if check(all[i as int]) is Some {
                lemma_failure_at(all, check, i as int);
            }
        }
        if let Err(e) = validate_identity(&rows[i], sys_id) {
            return Err(e);
        }
        let own: String = match actual_table(&rows[i]) {
            Ok(t) => t,
            Err(e) => return Err(e),
        };
        match &class {
            Some(c) => {
                if !same(c.as_str(), own.as_str()) {
                    assert(class_of(all[i as int]) != class_of(all[0]));
                    agree = false;
                }
            },
            None => {
                class = Some(own);
            },
        }
        i += 1;
    }
    proof {
        lemma_no_failure(all, check);
    }
    if !agree {
        return Err(
            integrity("sys_id returned conflicting object classes; resolution is ambiguous"),
        );
    }
    assert(all[0] == rows@[0]@);
    let mut rows = rows;
    let row: Row = rows.remove(0);
    match class {
        Some(class) => {
            let reread: bool = !same(class.as_str(), row.table.as_str());
            Ok(Verdict { row, class, reread })
        },
        None => Err(integrity("sys_id returned conflicting object classes; resolution is ambiguous")),
    }
}

/// What may go wrong when a row is read again in its class.
pub open spec fn reread_failure(
    reply: Result<RowView, Failure>,
    sys_id: Seq<char>,
    class: Seq<char>,
) -> Option<ResolveErrorView> {
    match reply {
        Err(Failure::TimedOut) => Some(
            ResolveErrorView::Unavailable("resolved class read timed out"@),
        ),
        Err(_) => Some(
            ResolveErrorView::Unavailable(
                "resolved class is not readable; parent data is not a complete object"@,
            ),
        ),
        Ok(row) => match identity_failure(row, sys_id) {
            Some(e) => Some(e),
            None => match class_of(row) {
                Err(e) => Some(e),
                Ok(own) => if own != class {
                    Some(
                        ResolveErrorView::Integrity("class changed during identifier resolution"@),
                    )
                } else {
                    None
                },
            },
        },
    }
}

pub fn reread_record(reply: Result<Row, Failure>, sys_id: &str, class: &str) -> (r: Result<
    Row,
    RecordResolveError,
>)
    ensures
        match r {
            Ok(row) => reread_failure(row_reply(reply), sys_id@, class@) is None && reply
                == Ok::<Row, Failure>(row),
            Err(e) => reread_failure(row_reply(reply), sys_id@, class@) == Some(e@),
        },
{
    let row: Row = match reply {
        Ok(row) => row,
        Err(Failure::TimedOut) => return Err(unavailable("resolved class read timed out")),
        Err(_) => return Err(
            unavailable("resolved class is not readable; parent data is not a complete object"),
        ),
    };
    if let Err(e) = validate_identity(&row, sys_id) {
        return Err(e);
    }
    match actual_table(&row) {
        Err(e) => Err(e),
        Ok(own) => if same(own.as_str(), class) {
            Ok(row)
        } else {
            Err(integrity("class changed during identifier resolution"))
        },
    }
}

pub open spec fn bad_search_cursor() -> ResolveErrorView {
    ResolveErrorView::InvalidParams(
        "invalid, expired, or cross-identifier resolution cursor; start again with sys_id only"@,
    )
}

pub open spec fn searches_full() -> ResolveErrorView {
    ResolveErrorView::Unavailable(
        "identifier discovery is at capacity; retry after active searches finish or expire"@,
    )
}

/// How a search is taken up: the one under the cursor, which must be for the same
/// sys_id, or else a new one while there is room. What has expired is dropped.
pub open spec fn search_opened(
    before: Sessions<SearchState>,
    after: Sessions<SearchState>,
    cursor: Option<Seq<char>>,
    sys_id: Seq<char>,
    now: u64,
    r: Result<SearchState, RecordResolveError>,
) -> bool {
    &&& after.entries@ == before.entries@.filter(live_entry(now))
    &&& match cursor {
        Some(c) => match after.position(c) {
            Some(i) if after.entries@[i].state.sys_id@ == sys_id => r is Ok && r->Ok_0@
                == after.entries@[i].state@,
            _ => r is Err && r->Err_0@ == bad_search_cursor(),
        },
        None => if after.entries@.len() >= MAX_SESSIONS {
            r is Err && r->Err_0@ == searches_full()
        } else {
            r is Ok && r->Ok_0@ == SearchView::fresh(sys_id)
        },
    }
}

/// Takes up a search: the one under the cursor, which must be for the same
/// sys_id, or else a new one while there is room.
pub fn open_search(
    sessions: &mut Sessions<SearchState>,
    cursor: &Option<String>,
    sys_id: &str,
    now: u64,
) -> (r: Result<SearchState, RecordResolveError>)
    requires
        old(sessions).well_formed(),
    ensures
        final(sessions).well_formed(),
        search_opened(*old(sessions), *final(sessions), text_of(*cursor), sys_id@, now, r),
{
    sessions.expire(now);
    match cursor {
        Some(c) => {
            if let Some(i) = sessions.find(c.as_str()) {
                if same(sessions.entries[i].state.sys_id.as_str(), sys_id) {
                    return Ok(sessions.entries[i].state.copy());
                }
            }
            Err(
                invalid(
                    "invalid, expired, or cross-identifier resolution cursor; start again with sys_id only",
                ),
            )
        },
        None => {
            if sessions.entries.len() >= MAX_SESSIONS {
                return Err(
                    unavailable(
                        "identifier discovery is at capacity; retry after active searches finish or expire",
                    ),
                );
            }
            Ok(SearchState::fresh(sys_id))
        },
    }
}

/// How a search that found nothing yet ends its call.
pub enum SearchEnd {
    NotFound { scanned_tables: usize, unreadable_tables: usize },
    Searching { cursor: String, scanned_tables: usize, unreadable_tables: usize },
}

/// Ends a call. A search over all tables is over and its session with it; any
/// other is kept under its cursor, or under `token` if it has none, while there is
/// room.
pub open spec fn parked(
    before: Sessions<SearchState>,
    after: Sessions<SearchState>,
    cursor: Option<Seq<char>>,
    state: SearchState,
    now: u64,
    token: Seq<char>,
    r: Result<SearchEnd, RecordResolveError>,
) -> bool {
    if state@.exhausted() {
        &&& r matches Ok(SearchEnd::NotFound { scanned_tables, unreadable_tables })
            && scanned_tables == state.scanned && unreadable_tables == state.unreadable
        &&& after.entries@ == match cursor {
            Some(c) => before.entries@.filter(other_token(c)),
            None => before.entries@,
        }
    } else {
        let key = match cursor {
            Some(c) => c,
            None => token,
        };
        if before.position(key) is None && before.entries@.len() >= MAX_SESSIONS {
            r is Err && r->Err_0@ == ResolveErrorView::Unavailable(
                "identifier discovery is at capacity"@,
            ) && after == before
        } else {
            &&& r matches Ok(SearchEnd::Searching { cursor: c, scanned_tables, unreadable_tables })
                && c@ == key && scanned_tables == state.scanned && unreadable_tables
                == state.unreadable
            &&& exists|name: String| name@ == key && after.entries@ == #[trigger] placed(
                before,
                Session { token: name, touched: now, state },
            )
        }
    }
}

pub fn park_with(
    sessions: &mut Sessions<SearchState>,
    cursor: Option<String>,
    state: SearchState,
    now: u64,
    token: String,
) -> (r: Result<SearchEnd, RecordResolveError>)
    requires
        old(sessions).well_formed(),
    ensures
        final(sessions).well_formed(),
        parked(*old(sessions), *final(sessions), text_of(cursor), state, now, token@, r),
{
    let scanned_tables: usize = state.scanned;
    let unreadable_tables: usize = state.unreadable;
    if state.pending.is_empty() && state.catalog_complete {
        if let Some(c) = &cursor {
            sessions.remove(c.as_str());
        }
        return Ok(SearchEnd::NotFound { scanned_tables, unreadable_tables });
    }
    let key: String = match cursor {
        Some(c) => c,
        None => token,
    };
    if sessions.find(key.as_str()).is_none() && sessions.entries.len() >= MAX_SESSIONS {
        return Err(unavailable("identifier discovery is at capacity"));
    }
    let shown: String = key.clone();
    sessions.put(key, now, state);
    Ok(SearchEnd::Searching { cursor: shown, scanned_tables, unreadable_tables })
}

/// Ends a call, minting a cursor where the search has none.
pub fn park(
    sessions: &mut Sessions<SearchState>,
    cursor: Option<String>,
    state: SearchState,
    now: u64,
) -> (r: Result<SearchEnd, RecordResolveError>)
    requires
        old(sessions).well_formed(),
    ensures
        final(sessions).well_formed(),
        exists|token: Seq<char>| #[trigger]
            parked(*old(sessions), *final(sessions), text_of(cursor), state, now, token, r),
{
    let token: String = fresh_token();
    park_with(sessions, cursor, state, now, token)
}

/// A call asks at most as many tables as its budget: each round of questions
/// takes as much from the budget as it asks, and at least one.
pub proof fn rounds_stay_in_budget(pending: int, remaining: int)
    requires
        pending > 0,
        remaining > 0,
    ensures
        0 < probe_count(pending, remaining) <= remaining,
        probe_count(pending, remaining) <= CONCURRENCY,
        probe_count(pending, remaining) <= pending,
{
}

/// The catalog moves forward only: a page that is accepted either ends the
/// catalog or leaves the search behind a greater name than before, and every name
/// that it adds is greater than all that were read before.
pub proof fn searches_move_forward(state: SearchView, reply: Result<PageView, Failure>)
    requires
        state.after_catalog(reply) is Ok,
    ensures
        ({
            let next = state.after_catalog(reply)->Ok_0;
            &&& next.catalog_complete || crate::text::text_less(state.after, next.after)
            &&& forall|i: int|
                state.pending.len() <= i < next.pending.len() ==> crate::text::text_less(
                    state.after,
                    #[trigger] next.pending[i],
                )
            &&& forall|i: int|
                0 <= i < state.pending.len() ==> next.pending[i] == #[trigger] state.pending[i]
        }),
{
    let rows = reply->Ok_0.rows;
    crate::catalog::catalog_pages_ascend(state.after, rows, true);
    let names = crate::catalog::catalog_names(rows);
    if rows.len() > 0 {
        assert(last_name(state.after, rows) == names[rows.len() - 1]);
    }
    let added = new_names(rows, names_of(PRIORITY_TABLES@));
    crate::listing::lemma_filter_sound(names, crate::catalog::not_listed(names_of(PRIORITY_TABLES@)));
    let next = state.after_catalog(reply)->Ok_0;
    assert forall|i: int| state.pending.len() <= i < next.pending.len() implies crate::text::text_less(
        state.after,
        #[trigger] next.pending[i],
    ) by {
        assert(next.pending[i] == added[i - state.pending.len()]);
        assert(names.contains(added[i - state.pending.len()]));
    }
}

} // verus!
