//! Records by exact name. Which fields may hold a name is read from the table's
//! live model; what is found are references, to be resolved one by one.
use vstd::prelude::*;
use vstd::string::*;

use crate::catalog::{catalog_failure, last_name, new_names, read_catalog};
use crate::document::{fresh_token, MAX_SESSIONS};
use crate::listing::ascending;
use crate::query::{Query, QueryView};
use crate::record_error::{invalid, unavailable, RecordResolveError, ResolveErrorView};
use crate::record_resolver::capped_sum;
use crate::record_types::{is_literal, literal_text, reply_view, resource_type};
use crate::row::{Failure, Page, PageView};
use crate::session::{live_entry, placed, Session, Sessions};
use crate::text::{
    copy_list, identifier, is_identifier, list_has, lower, lower_text, names_of, same, strings_of,
    text_of, texts, trim, trim_text,
};

verus! {

/// The tables that are searched first.
pub const FIRST_TABLES: [&'static str; 7] = [
    "rm_sprint",
    "rm_release_scrum",
    "sys_user_group",
    "sys_user",
    "task",
    "cmdb_ci",
    "kb_knowledge",
];

/// The fields that hold a name wherever a table has them.
pub const NAME_FIELDS: [&'static str; 8] = [
    "name",
    "u_name",
    "x_name",
    "short_description",
    "title",
    "number",
    "user_name",
    "email",
];

/// How many rows are read at once.
pub const NAME_ROWS: u32 = 20;

/// How many tables one call searches.
pub const TABLE_BUDGET: usize = 2;

/// How many cursors are kept.
pub const MAX_NAME_CURSORS: usize = 128;

/// How many different records one search may match.
pub const MAX_MATCHES: usize = 10000;

/// `str::to_lowercase`.
pub uninterp spec fn lowercase(s: Seq<char>) -> Seq<char>;

/// `str::to_lowercase`: the text in small letters by the Unicode mapping, which
/// depends on the text alone. What it makes of single characters is left to Unicode.
#[verifier::external_body]
pub(crate) fn to_lowercase(s: &str) -> (r: String)
    ensures
        r@ == lowercase(s@),
{
    s.to_lowercase()
}

/// A record that bears the name.
#[derive(Debug)]
pub struct RecordNameMatch {
    pub sys_id: String,
    pub table: String,
    pub resource_type: String,
    pub name: String,
    pub number: Option<String>,
    pub matched_fields: Vec<String>,
}

pub struct NameMatchView {
    pub sys_id: Seq<char>,
    pub table: Seq<char>,
    pub resource_type: Seq<char>,
    pub name: Seq<char>,
    pub number: Option<Seq<char>>,
    pub matched_fields: Seq<Seq<char>>,
}

impl View for RecordNameMatch {
    type V = NameMatchView;

    open spec fn view(&self) -> NameMatchView {
        NameMatchView {
            sys_id: self.sys_id@,
            table: self.table@,
            resource_type: self.resource_type@,
            name: self.name@,
            number: text_of(self.number),
            matched_fields: texts(self.matched_fields@),
        }
    }
}

pub open spec fn match_views(v: Seq<RecordNameMatch>) -> Seq<NameMatchView> {
    v.map_values(|m: RecordNameMatch| m@)
}

// --- selectors and sessions ---

pub open spec fn name_refusal(name: Seq<char>, table: Option<Seq<char>>) -> Option<ResolveErrorView> {
    if !is_literal(trim(name), 200) {
        Some(
            ResolveErrorView::InvalidParams(
                "name must be 1-200 bytes of literal text without encoded-query syntax"@,
            ),
        )
    } else if table is Some && !is_identifier(lower(trim(table->0))) {
        Some(ResolveErrorView::InvalidParams("table must be a ServiceNow table identifier"@))
    } else {
        None
    }
}

pub struct NameSelector {
    pub name: String,
    pub table: Option<String>,
}

/// Reads a name, and the table to search where one is given.
pub fn name_selector(name: &str, table: &Option<String>) -> (r: Result<
    NameSelector,
    RecordResolveError,
>)
    ensures
        match name_refusal(name@, text_of(*table)) {
            Some(e) => r is Err && r->Err_0@ == e,
            None => r is Ok && r->Ok_0.name@ == trim(name@) && text_of(r->Ok_0.table) == (
            match text_of(*table) {
                Some(t) => Some(lower(trim(t))),
                None => None,
            }),
        },
{
    let name: String = trim_text(name);
    if !literal_text(name.as_str(), 200) {
        return Err(invalid("name must be 1-200 bytes of literal text without encoded-query syntax"));
    }
    match table {
        None => Ok(NameSelector { name, table: None }),
        Some(t) => {
            let trimmed: String = trim_text(t.as_str());
            let lowered: String = lower_text(trimmed.as_str());
            if !identifier(lowered.as_str()) {
                return Err(invalid("table must be a ServiceNow table identifier"));
            }
            Ok(NameSelector { name, table: Some(lowered) })
        },
    }
}

/// A search by name under way. The table at the head of `pending` is being
/// searched, behind the row `row_after` if there is one; `seen` are the records
/// that were found so far.
pub struct NameSearch {
    pub name: String,
    pub table: Option<String>,
    pub pending: Vec<String>,
    pub catalog_after: String,
    pub catalog_complete: bool,
    pub row_after: Option<String>,
    pub seen: Vec<String>,
    pub scanned: usize,
    pub unreadable: usize,
}

#[verifier::ext_equal]
pub struct NameSearchView {
    pub name: Seq<char>,
    pub table: Option<Seq<char>>,
    pub pending: Seq<Seq<char>>,
    pub catalog_after: Seq<char>,
    pub catalog_complete: bool,
    pub row_after: Option<Seq<char>>,
    pub seen: Seq<Seq<char>>,
    pub scanned: usize,
    pub unreadable: usize,
}

impl View for NameSearch {
    type V = NameSearchView;

    open spec fn view(&self) -> NameSearchView {
        NameSearchView {
            name: self.name@,
            table: text_of(self.table),
            pending: texts(self.pending@),
            catalog_after: self.catalog_after@,
            catalog_complete: self.catalog_complete,
            row_after: text_of(self.row_after),
            seen: texts(self.seen@),
            scanned: self.scanned,
            unreadable: self.unreadable,
        }
    }
}

/// The records with one more, unless it is there already.
pub open spec fn with_seen(seen: Seq<Seq<char>>, id: Seq<char>) -> Seq<Seq<char>> {
    if seen.contains(id) {
        seen
    } else {
        seen.push(id)
    }
}

/// What is seen after a list of candidates.
pub open spec fn seen_after(seen: Seq<Seq<char>>, found: Seq<NameMatchView>) -> Seq<Seq<char>>
    decreases found.len(),
{
    if found.len() == 0 {
        seen
    } else {
        with_seen(seen_after(seen, found.drop_last()), found.last().sys_id)
    }
}

/// The candidates that were not seen before, each once.
pub open spec fn unseen(seen: Seq<Seq<char>>, found: Seq<NameMatchView>) -> Seq<NameMatchView>
    decreases found.len(),
{
    if found.len() == 0 {
        Seq::empty()
    } else if seen_after(seen, found.drop_last()).contains(found.last().sys_id) {
        unseen(seen, found.drop_last())
    } else {
        unseen(seen, found.drop_last()).push(found.last())
    }
}

impl NameSearchView {
    pub open spec fn fresh(name: Seq<char>, table: Option<Seq<char>>) -> NameSearchView {
        NameSearchView {
            name,
            table,
            pending: match table {
                Some(t) => seq![t],
                None => names_of(FIRST_TABLES@),
            },
            catalog_after: ""@,
            catalog_complete: table is Some,
            row_after: None,
            seen: Seq::empty(),
            scanned: 0,
            unreadable: 0,
        }
    }

    /// No record is counted twice.
    pub open spec fn well_formed(self) -> bool {
        self.seen.no_duplicates()
    }

    pub open spec fn exhausted(self) -> bool {
        self.pending.len() == 0 && self.catalog_complete
    }

    pub open spec fn catalog_query(self) -> QueryView {
        let q = QueryView::of("sys_db_object"@).field("name"@).ascending("name"@).limit(
            32,
        ).no_count();
        if self.catalog_after.len() > 0 {
            q.greater_than("name"@, self.catalog_after)
        } else {
            q
        }
    }

    pub open spec fn after_catalog(self, reply: Result<PageView, Failure>) -> Result<
        NameSearchView,
        ResolveErrorView,
    > {
        match reply {
            Err(Failure::TimedOut) => Err(
                ResolveErrorView::Unavailable("table catalog discovery timed out"@),
            ),
            Err(_) => Err(
                ResolveErrorView::Unavailable(
                    "table catalog is unreadable; name discovery cannot finish"@,
                ),
            ),
            Ok(page) => if page.partial {
                Err(ResolveErrorView::Unavailable("table catalog returned a partial page"@))
            } else {
                match catalog_failure(self.catalog_after, page.rows, false) {
                    Some(e) => Err(e),
                    None => Ok(
                        NameSearchView {
                            pending: self.pending + new_names(page.rows, names_of(FIRST_TABLES@)),
                            catalog_after: last_name(self.catalog_after, page.rows),
                            catalog_complete: page.rows.len() < 32,
                            ..self
                        },
                    ),
                }
            },
        }
    }

    /// After a page of the table at the head: its candidates are counted, and the
    /// table is left behind once it has no more rows.
    pub open spec fn after_page(
        self,
        found: Seq<NameMatchView>,
        next: Option<Seq<char>>,
        metadata_complete: bool,
    ) -> NameSearchView {
        let first = self.row_after is None;
        NameSearchView {
            scanned: if first {
                capped_sum(self.scanned, 1)
            } else {
                self.scanned
            },
            unreadable: if first && !metadata_complete {
                capped_sum(self.unreadable, 1)
            } else {
                self.unreadable
            },
            seen: seen_after(self.seen, found),
            row_after: next,
            pending: if next is None {
                self.pending.subrange(1, self.pending.len() as int)
            } else {
                self.pending
            },
            ..self
        }
    }

    /// After the table at the head could not be searched.
    pub open spec fn after_failure(self) -> NameSearchView {
        NameSearchView {
            scanned: capped_sum(self.scanned, 1),
            unreadable: capped_sum(self.unreadable, 1),
            row_after: None,
            pending: self.pending.subrange(1, self.pending.len() as int),
            ..self
        }
    }
}

/// What searching one table brought.
pub enum TableOutcome {
    Found { matches: Vec<RecordNameMatch>, next: Option<String>, metadata_complete: bool },
    Failed(RecordResolveError),
    TimedOut,
}

pub open spec fn too_many() -> ResolveErrorView {
    ResolveErrorView::Unavailable("name has too many matches; narrow the table"@)
}

pub open spec fn name_timeout() -> ResolveErrorView {
    ResolveErrorView::Unavailable(
        "name lookup timed out while discovering metadata or querying records"@,
    )
}

impl NameSearch {
    pub fn fresh(name: &str, table: &Option<String>) -> (r: NameSearch)
        ensures
            r@ == NameSearchView::fresh(name@, text_of(*table)),
            r@.well_formed(),
    {
        let pending: Vec<String> = match table {
            Some(t) => {
                let mut one: Vec<String> = Vec::new();
                one.push(t.clone());
                assert(texts(one@) =~= seq![t@]);
                one
            },
            None => strings_of(&FIRST_TABLES),
        };
        let r = NameSearch {
            name: name.to_owned(),
            table: table.clone(),
            pending,
            catalog_after: "".to_owned(),
            catalog_complete: table.is_some(),
            row_after: None,
            seen: Vec::new(),
            scanned: 0,
            unreadable: 0,
        };
        assert(r@ =~= NameSearchView::fresh(name@, text_of(*table)));
        r
    }

    pub fn copy(&self) -> (r: NameSearch)
        ensures
            r@ == self@,
    {
        NameSearch {
            name: self.name.clone(),
            table: self.table.clone(),
            pending: copy_list(&self.pending),
            catalog_after: self.catalog_after.clone(),
            catalog_complete: self.catalog_complete,
            row_after: self.row_after.clone(),
            seen: copy_list(&self.seen),
            scanned: self.scanned,
            unreadable: self.unreadable,
        }
    }

    /// The catalog query that is needed before the next table can be searched.
    pub fn catalog_query(&self) -> (r: Option<Query>)
        ensures
            match r {
                Some(q) => self@.pending.len() == 0 && !self@.catalog_complete && q@
                    == self@.catalog_query(),
                None => self@.pending.len() > 0 || self@.catalog_complete,
            },
    {
        if !self.pending.is_empty() || self.catalog_complete {
            return None;
        }
        let q: Query = Query::of("sys_db_object").field("name").ascending("name").limit(
            32,
        ).no_count();
        Some(
            if self.catalog_after.as_str().is_empty() {
                q
            } else {
                q.greater_than("name", self.catalog_after.as_str())
            },
        )
    }

    pub fn after_catalog(self, reply: Result<Page, Failure>) -> (r: Result<
        NameSearch,
        RecordResolveError,
    >)
        ensures
            match self@.after_catalog(reply_view(reply)) {
                Err(e) => r is Err && r->Err_0@ == e,
                Ok(next) => r is Ok && r->Ok_0@ == next,
            },
    {
        let page: Page = match reply {
            Ok(page) => page,
            Err(Failure::TimedOut) => return Err(unavailable("table catalog discovery timed out")),
            Err(_) => return Err(
                unavailable("table catalog is unreadable; name discovery cannot finish"),
            ),
        };
        if page.partial {
            return Err(unavailable("table catalog returned a partial page"));
        }
        let mut pending: Vec<String> = self.pending;
        let mut catalog_after: String = self.catalog_after;
        let read: Result<(), RecordResolveError> = read_catalog(
            &mut pending,
            &mut catalog_after,
            &page.rows,
            &FIRST_TABLES,
            false,
        );
        if let Err(e) = read {
            return Err(e);
        }
        Ok(
            NameSearch {
                name: self.name,
                table: self.table,
                pending,
                catalog_after,
                catalog_complete: page.rows.len() < 32,
                row_after: self.row_after,
                seen: self.seen,
                scanned: self.scanned,
                unreadable: self.unreadable,
            },
        )
    }

    /// The table to search, and the row behind which to go on.
    pub fn current(&self) -> (r: Option<(String, Option<String>)>)
        ensures
            match r {
                Some((table, after)) => self@.pending.len() > 0 && table@ == self@.pending[0]
                    && text_of(after) == self@.row_after,
                None => self@.pending.len() == 0,
            },
    {
        if self.pending.is_empty() {
            return None;
        }
        assert(self@.pending[0] == self.pending@[0]@);
        Some((self.pending[0].clone(), self.row_after.clone()))
    }

    /// Takes in what the table at the head brought. The records that are new come
    /// back. Contradictions end the search; a table that cannot be searched ends
    /// it only where it is the one that was asked for.
    pub fn after_table(self, outcome: TableOutcome) -> (r: Result<
        (NameSearch, Vec<RecordNameMatch>),
        RecordResolveError,
    >)
        requires
            self@.well_formed(),
            self@.pending.len() > 0,
        ensures
            r is Ok ==> r->Ok_0.0@.well_formed(),
            match outcome {
                TableOutcome::Found { matches, next, metadata_complete } => {
                    let found = match_views(matches@);
                    if seen_after(self@.seen, found).len() > MAX_MATCHES {
                        r is Err && r->Err_0@ == too_many()
                    } else {
                        r is Ok && r->Ok_0.0@ == self@.after_page(
                            found,
                            text_of(next),
                            metadata_complete,
                        ) && match_views(r->Ok_0.1@) == unseen(self@.seen, found)
                    }
                },
                TableOutcome::Failed(RecordResolveError::Integrity(m)) => r is Err && r->Err_0
                    == RecordResolveError::Integrity(m),
                TableOutcome::Failed(e) => if self@.table is Some {
                    r is Err && r->Err_0 == e
                } else {
                    r is Ok && r->Ok_0.0@ == self@.after_failure() && r->Ok_0.1@.len() == 0
                },
                TableOutcome::TimedOut => if self@.table is Some {
                    r is Err && r->Err_0@ == name_timeout()
                } else {
                    r is Ok && r->Ok_0.0@ == self@.after_failure() && r->Ok_0.1@.len() == 0
                },
            },
    {
        match outcome {
            TableOutcome::Found { matches, next, metadata_complete } => self.found(
                matches,
                next,
                metadata_complete,
            ),
            TableOutcome::Failed(RecordResolveError::Integrity(m)) => Err(
                RecordResolveError::Integrity(m),
            ),
            TableOutcome::Failed(e) => {
                if self.table.is_some() {
                    return Err(e);
                }
                Ok((self.failed(), Vec::new()))
            },
            TableOutcome::TimedOut => {
                if self.table.is_some() {
                    return Err(
                        unavailable(
                            "name lookup timed out while discovering metadata or querying records",
                        ),
                    );
                }
                Ok((self.failed(), Vec::new()))
            },
        }
    }

    fn failed(self) -> (r: NameSearch)
        requires
            self@.pending.len() > 0,
        ensures
            r@ == self@.after_failure(),
    {
        let mut pending: Vec<String> = self.pending;
        let ghost before = texts(pending@);
        let head: String = pending.remove(0);
        assert(texts(pending@) =~= before.subrange(1, before.len() as int));
        NameSearch {
            name: self.name,
            table: self.table,
            pending,
            catalog_after: self.catalog_after,
            catalog_complete: self.catalog_complete,
            row_after: None,
            seen: self.seen,
            scanned: self.scanned.saturating_add(1),
            unreadable: self.unreadable.saturating_add(1),
        }
    }

    fn found(self, matches: Vec<RecordNameMatch>, next: Option<String>, metadata_complete: bool) -> (r:
        Result<(NameSearch, Vec<RecordNameMatch>), RecordResolveError>)
        requires
            self@.well_formed(),
            self@.pending.len() > 0,
        ensures
            ({
                let found = match_views(matches@);
                if seen_after(self@.seen, found).len() > MAX_MATCHES {
                    r is Err && r->Err_0@ == too_many()
                } else {
                    r is Ok && r->Ok_0.0@ == self@.after_page(
                        found,
                        text_of(next),
                        metadata_complete,
                    ) && match_views(r->Ok_0.1@) == unseen(self@.seen, found)
                        && r->Ok_0.0@.well_formed()
                }
            }),
    {
        let ghost all = matches@;
        let ghost found = match_views(all);
        let ghost start = self@.seen;
        let mut seen: Vec<String> = self.seen;
        let mut rest: Vec<RecordNameMatch> = matches;
        let mut fresh: Vec<RecordNameMatch> = Vec::new();
        let ghost mut done: int = 0;
        assert(all.subrange(0, all.len() as int) =~= all);
        assert(match_views(fresh@) =~= unseen(start, found.subrange(0, 0)));
        while rest.len() > 0
            invariant
                0 <= done <= all.len(),
                found == match_views(all),
                rest@ == all.subrange(done, all.len() as int),
                texts(seen@) == seen_after(start, found.subrange(0, done)),
                texts(seen@).no_duplicates(),
                match_views(fresh@) == unseen(start, found.subrange(0, done)),
            decreases rest@.len(),
        {
            let candidate: RecordNameMatch = rest.remove(0);
            let ghost seen_before = seen@;
            let ghost fresh_before = fresh@;
            proof {
                assert(candidate == all[done]);
                let longer = found.subrange(0, done + 1);
                assert(longer.drop_last() =~= found.subrange(0, done));
                assert(longer.last() == candidate@);
                done = done + 1;
                assert(rest@ =~= all.subrange(done, all.len() as int));
            }
            if !list_has(&seen, candidate.sys_id.as_str()) {
                seen.push(candidate.sys_id.clone());
                proof {
                    assert(texts(seen@) =~= texts(seen_before).push(candidate.sys_id@));
                    lemma_push_distinct(texts(seen_before), candidate.sys_id@);
                }
                fresh.push(candidate);
                assert(match_views(fresh@) =~= match_views(fresh_before).push(candidate@));
            }
        }
        assert(found.subrange(0, done) =~= found);
        if seen.len() > MAX_MATCHES {
            return Err(unavailable("name has too many matches; narrow the table"));
        }
        let first: bool = self.row_after.is_none();
        let mut pending: Vec<String> = self.pending;
        let ghost before = texts(pending@);
        if next.is_none() {
            let head: String = pending.remove(0);
            assert(texts(pending@) =~= before.subrange(1, before.len() as int));
        }
        let state = NameSearch {
            name: self.name,
            table: self.table,
            pending,
            catalog_after: self.catalog_after,
            catalog_complete: self.catalog_complete,
            row_after: next,
            seen,
            scanned: if first {
                self.scanned.saturating_add(1)
            } else {
                self.scanned
            },
            unreadable: if first && !metadata_complete {
                self.unreadable.saturating_add(1)
            } else {
                self.unreadable
            },
        };
        Ok((state, fresh))
    }
}

pub proof fn lemma_push_distinct(s: Seq<Seq<char>>, x: Seq<char>)
    requires
        s.no_duplicates(),
        !s.contains(x),
    ensures
        s.push(x).no_duplicates(),
{
    let t = s.push(x);
    assert forall|i: int, j: int| 0 <= i < t.len() && 0 <= j < t.len() && i != j implies t[i]
        != t[j] by {
        if i < s.len() {
            assert(s.contains(s[i]));
        }
        if j < s.len() {
            assert(s.contains(s[j]));
        }
    }
}

pub open spec fn bad_name_cursor() -> ResolveErrorView {
    ResolveErrorView::InvalidParams("invalid, expired, or cross-selector name cursor"@)
}

/// How a search by name is taken up: the one under the cursor, which must be for
/// the same name and table, or else a new one while there is room. What has
/// expired is dropped.
pub open spec fn name_opened(
    before: Sessions<NameSearch>,
    after: Sessions<NameSearch>,
    cursor: Option<Seq<char>>,
    name: Seq<char>,
    table: Option<Seq<char>>,
    now: u64,
    r: Result<NameSearch, RecordResolveError>,
) -> bool {
    &&& after.entries@ == before.entries@.filter(live_entry(now))
    &&& match cursor {
        Some(c) => match after.position(c) {
            Some(i) if after.entries@[i].state@.name == name && after.entries@[i].state@.table
                == table => r is Ok && r->Ok_0@ == after.entries@[i].state@,
            _ => r is Err && r->Err_0@ == bad_name_cursor(),
        },
        None => if after.entries@.len() >= MAX_SESSIONS {
            r is Err && r->Err_0@ == ResolveErrorView::Unavailable(
                "name discovery is at capacity; retry after active searches expire"@,
            )
        } else {
            r is Ok && r->Ok_0@ == NameSearchView::fresh(name, table)
        },
    }
}

/// Takes up a search by name: the one under the cursor, which must be for the
/// same name and table, or else a new one while there is room.
pub fn open_name_search(
    sessions: &mut Sessions<NameSearch>,
    cursor: &Option<String>,
    name: &str,
    table: &Option<String>,
    now: u64,
) -> (r: Result<NameSearch, RecordResolveError>)
    requires
        old(sessions).well_formed(),
    ensures
        final(sessions).well_formed(),
        name_opened(
            *old(sessions),
            *final(sessions),
            text_of(*cursor),
            name@,
            text_of(*table),
            now,
            r,
        ),
{
    sessions.expire(now);
    match cursor {
        Some(c) => {
            if let Some(i) = sessions.find(c.as_str()) {
                let held: &NameSearch = &sessions.entries[i].state;
                if same(held.name.as_str(), name) && same_option(&held.table, table) {
                    return Ok(held.copy());
                }
            }
            Err(invalid("invalid, expired, or cross-selector name cursor"))
        },
        None => {
            if sessions.entries.len() >= MAX_SESSIONS {
                return Err(
                    unavailable("name discovery is at capacity; retry after active searches expire"),
                );
            }
            Ok(NameSearch::fresh(name, table))
        },
    }
}

pub fn same_option(a: &Option<String>, b: &Option<String>) -> (r: bool)
    ensures
        r == (text_of(*a) == text_of(*b)),
{
    match (a, b) {
        (Some(x), Some(y)) => same(x.as_str(), y.as_str()),
        (None, None) => true,
        _ => false,
    }
}

/// What a call by name answers.
pub struct NameMatches {
    pub name: String,
    pub records: Vec<RecordNameMatch>,
    pub complete: bool,
    pub cursor: Option<String>,
    pub match_count: usize,
    pub scanned_tables: usize,
    pub unreadable_tables: usize,
}

/// How a call by name ends. The cursor that it was given, if any, keeps its
/// state; where there is more to search, that goes under a new one while there
/// is room.
pub open spec fn name_parked(
    before: Sessions<NameSearch>,
    after: Sessions<NameSearch>,
    state: NameSearch,
    records: Vec<RecordNameMatch>,
    now: u64,
    token: String,
    r: Result<NameMatches, RecordResolveError>,
) -> bool {
    let live = before.entries@.filter(live_entry(now));
    let answers = r is Ok && ({
        let m = r->Ok_0;
        &&& m.name == state.name
        &&& m.records == records
        &&& m.complete == (state@.exhausted() && state.unreadable == 0)
        &&& m.cursor == (if state@.exhausted() {
            None
        } else {
            Some(token)
        })
        &&& m.match_count == state@.seen.len()
        &&& m.scanned_tables == state.scanned
        &&& m.unreadable_tables == state.unreadable
    });
    if state@.exhausted() {
        answers && after == before
    } else if live.len() >= MAX_NAME_CURSORS {
        r is Err && r->Err_0@ == ResolveErrorView::Unavailable(
            "name cursor storage is at capacity; retry after expiry"@,
        ) && after.entries@ == live
    } else {
        answers && exists|room: Sessions<NameSearch>|
            room.well_formed() && room.entries@ == live && after.entries@ == #[trigger] placed(
                room,
                Session { token, touched: now, state },
            )
    }
}

pub fn park_name_with(
    sessions: &mut Sessions<NameSearch>,
    state: NameSearch,
    records: Vec<RecordNameMatch>,
    now: u64,
    token: String,
) -> (r: Result<NameMatches, RecordResolveError>)
    requires
        old(sessions).well_formed(),
    ensures
        final(sessions).well_formed(),
        name_parked(*old(sessions), *final(sessions), state, records, now, token, r),
{
    let exhausted: bool = state.pending.is_empty() && state.catalog_complete;
    let answer = NameMatches {
        name: state.name.clone(),
        records,
        complete: exhausted && state.unreadable == 0,
        cursor: if exhausted {
            None
        } else {
            Some(token.clone())
        },
        match_count: state.seen.len(),
        scanned_tables: state.scanned,
        unreadable_tables: state.unreadable,
    };
    if exhausted {
        return Ok(answer);
    }
    sessions.expire(now);
    if sessions.entries.len() >= MAX_NAME_CURSORS {
        return Err(unavailable("name cursor storage is at capacity; retry after expiry"));
    }
    sessions.put(token, now, state);
    Ok(answer)
}

pub fn park_name(
    sessions: &mut Sessions<NameSearch>,
    state: NameSearch,
    records: Vec<RecordNameMatch>,
    now: u64,
) -> (r: Result<NameMatches, RecordResolveError>)
    requires
        old(sessions).well_formed(),
    ensures
        final(sessions).well_formed(),
        exists|token: String| #[trigger]
            name_parked(*old(sessions), *final(sessions), state, records, now, token, r),
{
    let token: String = fresh_token();
    park_name_with(sessions, state, records, now, token)
}

/// A cursor can be replayed: as long as its session lives and no new session
/// takes its token, ending a call leaves the state under it as it was.
pub proof fn name_cursors_are_snapshots(
    before: Sessions<NameSearch>,
    after: Sessions<NameSearch>,
    state: NameSearch,
    records: Vec<RecordNameMatch>,
    now: u64,
    token: String,
    r: Result<NameMatches, RecordResolveError>,
    held: Session<NameSearch>,
)
    requires
        name_parked(before, after, state, records, now, token, r),
        before.entries@.contains(held),
        crate::session::is_live(held.touched, now),
        held.token@ != token@,
    ensures
        after.entries@.contains(held),
{
    let live = before.entries@.filter(live_entry(now));
    crate::listing::lemma_filter_complete(before.entries@, live_entry(now), held);
    if !state@.exhausted() && live.len() < MAX_NAME_CURSORS {
        let fresh = Session { token, touched: now, state };
        let room = choose|room: Sessions<NameSearch>|
            room.well_formed() && room.entries@ == live && after.entries@ == #[trigger] placed(
                room,
                fresh,
            );
        let k = choose|k: int| 0 <= k < live.len() && live[k] == held;
        match room.position(token@) {
            Some(i) => {
                let names = crate::session::tokens(live);
                assert(names.contains(token@));
                assert(0 <= i < names.len() && names[i] == token@);
                assert(names[k] == held.token@);
                assert(after.entries@[k] == held);
            },
            None => {
                assert(after.entries@[k] == held);
            },
        }
    }
}

/// No candidate comes back twice in one search: what a table brings as new was
/// not seen before, and is seen from then on.
pub proof fn candidates_come_once(seen: Seq<Seq<char>>, found: Seq<NameMatchView>)
    ensures
        forall|i: int|
            0 <= i < unseen(seen, found).len() ==> !seen.contains(
                (#[trigger] unseen(seen, found)[i]).sys_id,
            ) && seen_after(seen, found).contains(unseen(seen, found)[i].sys_id),
        forall|i: int, j: int|
            0 <= i < j < unseen(seen, found).len() ==> (#[trigger] unseen(seen, found)[i]).sys_id
                != (#[trigger] unseen(seen, found)[j]).sys_id,
        forall|id: Seq<char>| #[trigger]
            seen.contains(id) ==> seen_after(seen, found).contains(id),
        forall|i: int|
            0 <= i < found.len() ==> seen_after(seen, found).contains(
                (#[trigger] found[i]).sys_id,
            ),
    decreases found.len(),
{
    if found.len() > 0 {
        let front = found.drop_last();
        candidates_come_once(seen, front);
        let s0 = seen_after(seen, front);
        let s1 = seen_after(seen, found);
        assert forall|id: Seq<char>| #[trigger] s0.contains(id) implies s1.contains(id) by {
            let k = choose|k: int| 0 <= k < s0.len() && s0[k] == id;
            assert(s1[k] == id);
        }
        assert(s1.contains(found.last().sys_id)) by {
            if !s0.contains(found.last().sys_id) {
                assert(s1[s0.len() as int] == found.last().sys_id);
            }
        }
        assert forall|i: int| 0 <= i < found.len() implies s1.contains(
            (#[trigger] found[i]).sys_id,
        ) by {
            if i < front.len() {
                assert(front[i] == found[i]);
            }
        }
        let u0 = unseen(seen, front);
        let u1 = unseen(seen, found);
        assert forall|i: int| 0 <= i < u1.len() implies !seen.contains((#[trigger] u1[i]).sys_id)
            && s1.contains(u1[i].sys_id) by {
            if i < u0.len() {
                assert(u1[i] == u0[i]);
            }
        }
        assert forall|i: int, j: int| 0 <= i < j < u1.len() implies (#[trigger] u1[i]).sys_id != (
        #[trigger] u1[j]).sys_id by {
            assert(u1[i] == u0[i]);
            if j < u0.len() {
                assert(u1[j] == u0[j]);
            } else {
                assert(s0.contains(u0[i].sys_id));
            }
        }
    }
}

} // verus!
