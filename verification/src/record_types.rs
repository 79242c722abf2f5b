//! Record types: how a selector (a table name, a label, a reference field or a
//! number prefix) leads to tables, and how a record number leads to its record.
use vstd::prelude::*;
use vstd::string::*;

use crate::listing::{ascending, first_failure, insert_ascending, lemma_failure_at, lemma_no_failure};
use crate::query::{Query, QueryView};
use crate::record_error::{integrity, invalid, unavailable, RecordResolveError, ResolveErrorView};
use crate::row::{Failure, Page, PageView, Row, RowView};
use crate::text::{
    all_chars, byte_len, byte_length, chars_of, contains_text, control, has_text, identifier,
    is_control, is_digit, is_identifier, is_letter, is_upper, lower, lower_text, same,
    same_any_case, same_ignoring_case, text_of, texts, trim, trim_text, upper, upper_text,
};

verus! {

/// Names under which existing operations know some tables.
pub const COMPATIBILITY_TYPES: [(&'static str, &'static str); 17] = [
    ("rm_story", "story"),
    ("rm_sprint", "sprint"),
    ("rm_release_scrum", "release"),
    ("sys_user_group", "assignment_group"),
    ("rm_scrum_task", "story_task"),
    ("sc_request", "request"),
    ("sc_req_item", "request_item"),
    ("sc_task", "request_task"),
    ("pm_project", "project"),
    ("pm_project_task", "project_task"),
    ("dmn_demand", "demand"),
    ("dmn_demand_task", "demand_task"),
    ("time_card", "timecard"),
    ("sys_user", "user"),
    ("sysapproval_approver", "approval"),
    ("kb_knowledge", "knowledge_article"),
    ("cmdb_ci_business_app", "business_application"),
];

/// The name paired with `table` in the list from position `from` on, or `table` itself.
pub open spec fn type_from(table: Seq<char>, from: int) -> Seq<char>
    decreases 17 - from,
{
    if from < 0 || from >= 17 {
        table
    } else if COMPATIBILITY_TYPES@[from].0@ == table {
        COMPATIBILITY_TYPES@[from].1@
    } else {
        type_from(table, from + 1)
    }
}

/// The name by which a table is known: its compatibility name, or its own.
pub open spec fn type_of_table(table: Seq<char>) -> Seq<char> {
    type_from(table, 0)
}

/// The table paired with `kind` in the list from position `from` on.
pub open spec fn alias_from(kind: Seq<char>, from: int) -> Option<Seq<char>>
    decreases 17 - from,
{
    if from < 0 || from >= 17 {
        None
    } else if COMPATIBILITY_TYPES@[from].1@ == kind {
        Some(COMPATIBILITY_TYPES@[from].0@)
    } else {
        alias_from(kind, from + 1)
    }
}

pub fn resource_type(table: &str) -> (r: String)
    ensures
        r@ == type_of_table(table@),
{
    let mut i: usize = 0;
    while i < 17
        invariant
            i <= 17,
            type_of_table(table@) == type_from(table@, i as int),
        decreases 17 - i,
    {
        if same(COMPATIBILITY_TYPES[i].0, table) {
            return COMPATIBILITY_TYPES[i].1.to_owned();
        }
        i += 1;
    }
    table.to_owned()
}

fn alias_table(kind: &str) -> (r: Option<String>)
    ensures
        text_of(r) == alias_from(kind@, 0),
{
    let mut i: usize = 0;
    while i < 17
        invariant
            i <= 17,
            alias_from(kind@, 0) == alias_from(kind@, i as int),
        decreases 17 - i,
    {
        if same(COMPATIBILITY_TYPES[i].1, kind) {
            return Some(COMPATIBILITY_TYPES[i].0.to_owned());
        }
        i += 1;
    }
    None
}

/// A table with its label, the name it is known by, and where that was learned.
#[derive(Debug)]
pub struct RecordType {
    pub table: String,
    pub label: String,
    pub resource_type: String,
    pub source: String,
}

pub struct RecordTypeView {
    pub table: Seq<char>,
    pub label: Seq<char>,
    pub resource_type: Seq<char>,
    pub source: Seq<char>,
}

impl View for RecordType {
    type V = RecordTypeView;

    open spec fn view(&self) -> RecordTypeView {
        RecordTypeView {
            table: self.table@,
            label: self.label@,
            resource_type: self.resource_type@,
            source: self.source@,
        }
    }
}

pub open spec fn type_views(v: Seq<RecordType>) -> Seq<RecordTypeView> {
    v.map_values(|t: RecordType| t@)
}

/// Text that stands for itself in a query: no control characters and none of the
/// notations that a query would interpret.
pub open spec fn is_plain(s: Seq<char>) -> bool {
    &&& all_chars(s, |c: char| !is_control(c) && c != '^')
    &&& !has_text(s, "${"@)
    &&& !has_text(lower(s), "javascript:"@)
}

pub open spec fn is_literal(s: Seq<char>, max_bytes: nat) -> bool {
    0 < s.len() && byte_len(s) <= max_bytes && is_plain(s)
}

fn plain_chars(v: &Vec<char>) -> (r: bool)
    ensures
        r == all_chars(v@, |c: char| !is_control(c) && c != '^'),
{
    let mut i: usize = 0;
    while i < v.len()
        invariant
            i <= v@.len(),
            forall|j: int| 0 <= j < i ==> !is_control(#[trigger] v@[j]) && v@[j] != '^',
        decreases v@.len() - i,
    {
        if control(v[i]) || v[i] == '^' {
            assert(is_control(v@[i as int]) || v@[i as int] == '^');
            return false;
        }
        i += 1;
    }
    true
}

/// Whether the text is a literal of at most so many bytes.
pub fn literal_text(s: &str, max_bytes: usize) -> (r: bool)
    ensures
        r == is_literal(s@, max_bytes as nat),
{
    let v: Vec<char> = chars_of(s);
    let lowered: String = lower_text(s);
    v.len() > 0 && byte_length(s) <= max_bytes && plain_chars(&v) && !contains_text(s, "${")
        && !contains_text(lowered.as_str(), "javascript:")
}

pub open spec fn bad_literal() -> ResolveErrorView {
    ResolveErrorView::InvalidParams(
        "record type must be a literal table name, label, reference field, or number prefix"@,
    )
}

/// The trimmed selector, if it is a literal of at most 160 bytes.
pub open spec fn literal_of(value: Seq<char>) -> Result<Seq<char>, ResolveErrorView> {
    if is_literal(trim(value), 160) {
        Ok(trim(value))
    } else {
        Err(bad_literal())
    }
}

pub fn literal(value: &str) -> (r: Result<String, RecordResolveError>)
    ensures
        crate::record_error::text_result(r, literal_of(value@)),
{
    let trimmed: String = trim_text(value);
    if literal_text(trimmed.as_str(), 160) {
        Ok(trimmed)
    } else {
        Err(
            invalid(
                "record type must be a literal table name, label, reference field, or number prefix",
            ),
        )
    }
}

// --- table definitions ---

/// The catalog entry of one table.
pub open spec fn definition_query_of(table: Seq<char>) -> QueryView {
    QueryView::of("sys_db_object"@).equals("name"@, table).field("name"@).field("label"@).limit(
        2,
    ).no_count()
}

/// What a table's catalog entry settles. The table name itself must be an
/// identifier; the entry must be the only one, be the one asked for, and have a label.
pub open spec fn definition_of(
    table: Seq<char>,
    source: Seq<char>,
    reply: Result<PageView, Failure>,
) -> Result<RecordTypeView, ResolveErrorView> {
    if !is_identifier(table) {
        Err(ResolveErrorView::Integrity("metadata returned an invalid table"@))
    } else {
        match reply {
            Err(_) => Err(ResolveErrorView::Unavailable("table definition is unreadable"@)),
            Ok(page) => if page.partial || page.rows.len() != 1 || page.rows[0].raw("name"@)
                != Some(table) {
                Err(
                    ResolveErrorView::Integrity(
                        "table definition is missing, ambiguous, or did not match"@,
                    ),
                )
            } else {
                match page.rows[0].raw("label"@) {
                    Some(label) if label.len() > 0 => Ok(
                        RecordTypeView {
                            table,
                            label,
                            resource_type: type_of_table(table),
                            source,
                        },
                    ),
                    _ => Err(ResolveErrorView::Unavailable("table label is unreadable"@)),
                }
            },
        }
    }
}

pub open spec fn reply_view(reply: Result<Page, Failure>) -> Result<PageView, Failure> {
    match reply {
        Ok(page) => Ok(page@),
        Err(f) => Err(f),
    }
}

/// The query that a definition needs; a name that is no identifier is never asked for.
pub fn definition_query(table: &str) -> (r: Result<Query, RecordResolveError>)
    ensures
        match r {
            Ok(q) => is_identifier(table@) && q@ == definition_query_of(table@),
            Err(e) => !is_identifier(table@) && e@ == ResolveErrorView::Integrity(
                "metadata returned an invalid table"@,
            ),
        },
{
    if !identifier(table) {
        return Err(integrity("metadata returned an invalid table"));
    }
    Ok(
        Query::of("sys_db_object").equals("name", table).field("name").field("label").limit(
            2,
        ).no_count(),
    )
}

pub fn table_definition(table: &str, source: &str, reply: &Result<Page, Failure>) -> (r: Result<
    RecordType,
    RecordResolveError,
>)
    ensures
        match r {
            Ok(t) => definition_of(table@, source@, reply_view(*reply)) == Ok::<
                RecordTypeView,
                ResolveErrorView,
            >(t@),
            Err(e) => definition_of(table@, source@, reply_view(*reply)) == Err::<
                RecordTypeView,
                ResolveErrorView,
            >(e@),
        },
{
    if !identifier(table) {
        return Err(integrity("metadata returned an invalid table"));
    }
    let page: &Page = match reply {
        Ok(page) => page,
        Err(_) => return Err(unavailable("table definition is unreadable")),
    };
    if page.partial || page.rows.len() != 1 {
        return Err(integrity("table definition is missing, ambiguous, or did not match"));
    }
    assert(page@.rows[0] == page.rows@[0]@);
    let named: bool = match page.rows[0].get_raw("name") {
        Some(name) => same(name, table),
        None => false,
    };
    if !named {
        return Err(integrity("table definition is missing, ambiguous, or did not match"));
    }
    match page.rows[0].get_raw("label") {
        Some(label) => if label.is_empty() {
            Err(unavailable("table label is unreadable"))
        } else {
            Ok(
                RecordType {
                    table: table.to_owned(),
                    label: label.to_owned(),
                    resource_type: resource_type(table),
                    source: source.to_owned(),
                },
            )
        },
        None => Err(unavailable("table label is unreadable")),
    }
}

// --- number prefixes ---

pub open spec fn prefix_query_of(prefix: Seq<char>) -> QueryView {
    QueryView::of("sys_number"@).equals("prefix"@, prefix).field("prefix"@).field(
        "category"@,
    ).limit(21).no_count()
}

pub fn prefix_query(prefix: &str) -> (q: Query)
    ensures
        q@ == prefix_query_of(prefix@),
{
    Query::of("sys_number").equals("prefix", prefix).field("prefix").field("category").limit(
        21,
    ).no_count()
}

/// Tables that a selector led to, and where they were learned from.
pub struct TypeTables {
    pub tables: Vec<String>,
    pub source: String,
}

/// Whether the provider hides the prefix metadata: it forbids it or has none.
pub open spec fn is_hidden(failure: Failure) -> bool {
    failure == Failure::Auth(Some(403)) || failure == Failure::Api(403) || failure
        == Failure::Api(404)
}

pub open spec fn prefix_row_failure(row: RowView, prefix: Seq<char>) -> Option<ResolveErrorView> {
    match row.raw("prefix"@) {
        Some(p) if same_ignoring_case(p, prefix) => match row.raw("category"@) {
            Some(t) if is_identifier(t) => None,
            _ => Some(
                ResolveErrorView::Integrity("number-prefix metadata omitted its table"@),
            ),
        },
        _ => Some(ResolveErrorView::Integrity("number-prefix metadata did not match"@)),
    }
}

pub open spec fn prefix_check(prefix: Seq<char>) -> spec_fn(RowView) -> Option<ResolveErrorView> {
    |row: RowView| prefix_row_failure(row, prefix)
}

/// Whether a field has the given value in one of the first `count` rows.
pub open spec fn value_among(rows: Seq<RowView>, count: int, field: Seq<char>, t: Seq<char>) -> bool {
    exists|i: int| 0 <= i < count && (#[trigger] rows[i]).raw(field) == Some(t)
}

proof fn lemma_value_added(rows: Seq<RowView>, count: int, field: Seq<char>)
    requires
        0 <= count < rows.len(),
    ensures
        forall|t: Seq<char>| #[trigger]
            value_among(rows, count + 1, field, t) <==> value_among(rows, count, field, t)
                || rows[count].raw(field) == Some(t),
{
    assert forall|t: Seq<char>| #[trigger] value_among(rows, count + 1, field, t) <==> value_among(
        rows,
        count,
        field,
        t,
    ) || rows[count].raw(field) == Some(t) by {
        if value_among(rows, count + 1, field, t) {
            let i = choose|i: int| 0 <= i < count + 1 && (#[trigger] rows[i]).raw(field) == Some(t);
            if i < count {
                assert(value_among(rows, count, field, t));
            }
        }
        if value_among(rows, count, field, t) {
            let i = choose|i: int| 0 <= i < count && (#[trigger] rows[i]).raw(field) == Some(t);
            assert(0 <= i < count + 1 && rows[i].raw(field) == Some(t));
        }
        if rows[count].raw(field) == Some(t) {
            assert(0 <= count < count + 1 && rows[count].raw(field) == Some(t));
        }
    }
}

/// The answer on a number prefix. Metadata decides where it is readable and has
/// an entry; else the configured table does, if there is one.
pub open spec fn prefix_answer(
    prefix: Seq<char>,
    reply: Result<PageView, Failure>,
    configured: Option<Seq<char>>,
    r: Result<TypeTables, RecordResolveError>,
) -> bool {
    match reply {
        Err(f) if is_hidden(f) => match configured {
            Some(t) => r is Ok && texts(r->Ok_0.tables@) == seq![t] && r->Ok_0.source@
                == "core_prefix_fallback"@,
            None => r is Err && r->Err_0@ == ResolveErrorView::Unavailable(
                "number-prefix metadata is unreadable and the core has no configured prefix mapping"@,
            ),
        },
        Err(_) => r is Err && r->Err_0@ == ResolveErrorView::Unavailable(
            "number-prefix metadata is unavailable"@,
        ),
        Ok(page) => if page.partial || page.rows.len() > 20 {
            r is Err && r->Err_0@ == ResolveErrorView::Unavailable(
                "number-prefix metadata is incomplete"@,
            )
        } else {
            match first_failure(page.rows, prefix_check(prefix)) {
                Some(e) => r is Err && r->Err_0@ == e,
                None => r is Ok && (if page.rows.len() == 0 && configured is Some {
                    texts(r->Ok_0.tables@) == seq![configured->0] && r->Ok_0.source@
                        == "core_prefix_fallback"@
                } else {
                    &&& ascending(texts(r->Ok_0.tables@))
                    &&& forall|t: Seq<char>| #[trigger]
                        texts(r->Ok_0.tables@).contains(t) <==> value_among(
                            page.rows,
                            page.rows.len() as int,
                            "category"@,
                            t,
                        )
                    &&& r->Ok_0.source@ == "number_metadata"@
                }),
            }
        },
    }
}

fn fallback(table: &String) -> (r: TypeTables)
    ensures
        texts(r.tables@) == seq![table@],
        r.source@ == "core_prefix_fallback"@,
{
    let mut tables: Vec<String> = Vec::new();
    tables.push(table.clone());
    assert(texts(tables@) =~= seq![table@]);
    TypeTables { tables, source: "core_prefix_fallback".to_owned() }
}

/// Reads the answer to [`prefix_query`]. `configured` is the table that the
/// client's own prefix registry gives.
#[verifier::loop_isolation(false)]
pub fn prefix_tables(
    prefix: &str,
    reply: &Result<Page, Failure>,
    configured: &Option<String>,
) -> (r: Result<TypeTables, RecordResolveError>)
    ensures
        prefix_answer(prefix@, reply_view(*reply), text_of(*configured), r),
{
    let page: &Page = match reply {
        Ok(page) => page,
        Err(f) => {
            let hidden: bool = match f {
                Failure::Auth(Some(status)) => *status == 403,
                Failure::Api(status) => *status == 403 || *status == 404,
                _ => false,
            };
            if !hidden {
                return Err(unavailable("number-prefix metadata is unavailable"));
            }
            return match configured {
                Some(table) => Ok(fallback(table)),
                None => Err(
                    unavailable(
                        "number-prefix metadata is unreadable and the core has no configured prefix mapping",
                    ),
                ),
            };
        },
    };
    if page.partial || page.rows.len() > 20 {
        return Err(unavailable("number-prefix metadata is incomplete"));
    }
    let ghost rows = page@.rows;
    let ghost check = prefix_check(prefix@);
    let mut tables: Vec<String> = Vec::new();
    let mut i: usize = 0;
    assert(texts(tables@) =~= Seq::empty());
    while i < page.rows.len()
        invariant
            i <= page.rows@.len(),
            forall|j: int| 0 <= j < i ==> check(#[trigger] rows[j]) is None,
            ascending(texts(tables@)),
            forall|t: Seq<char>| #[trigger]
                texts(tables@).contains(t) <==> value_among(rows, i as int, "category"@, t),
        decreases page.rows@.len() - i,
    {
        let row: &Row = &page.rows[i];
        assert(rows[i as int] == row@);
        let matched: bool = match row.get_raw("prefix") {
            Some(p) => same_any_case(p, prefix),
            None => false,
        };
        if !matched {
            proof {
                lemma_failure_at(rows, check, i as int);
            }
            return Err(integrity("number-prefix metadata did not match"));
        }
        let category: Option<&str> = row.get_raw("category");
        let table: &str = match category {
            Some(t) => if identifier(t) {
                t
            } else {
                proof {
                    lemma_failure_at(rows, check, i as int);
                }
                return Err(integrity("number-prefix metadata omitted its table"));
            },
            None => {
                proof {
                    lemma_failure_at(rows, check, i as int);
                }
                return Err(integrity("number-prefix metadata omitted its table"));
            },
        };
        let ghost before = texts(tables@);
        insert_ascending(&mut tables, table);
        proof {
            lemma_value_added(rows, i as int, "category"@);
        }
        i += 1;
    }
    proof {
        lemma_no_failure(rows, check);
        if tables@.len() > 0 {
            assert(texts(tables@).contains(texts(tables@)[0]));
        }
        if rows.len() > 0 {
            let t = rows[0].raw("category"@)->0;
            assert(check(rows[0]) is None);
            assert(rows[0].raw("category"@) == Some(t));
            assert(value_among(rows, rows.len() as int, "category"@, t));
            assert(texts(tables@).contains(t));
        }
    }
    if tables.is_empty() {
        if let Some(table) = configured {
            return Ok(fallback(table));
        }
    }
    Ok(TypeTables { tables, source: "number_metadata".to_owned() })
}


// --- type discovery ---

pub open spec fn blank_char(c: char) -> char {
    if c == '_' {
        ' '
    } else {
        c
    }
}

/// The text with blanks for underscores.
pub open spec fn blanked(s: Seq<char>) -> Seq<char> {
    s.map_values(|c: char| blank_char(c))
}

fn blanked_text(s: &str) -> (r: String)
    ensures
        r@ == blanked(s@),
{
    let v: Vec<char> = chars_of(s);
    let mut out: String = String::new();
    let mut i: usize = 0;
    while i < v.len()
        invariant
            i <= v@.len(),
            out@ == blanked(v@).subrange(0, i as int),
        decreases v@.len() - i,
    {
        if v[i] == '_' {
            out.push(' ');
        } else {
            out.push(v[i]);
        }
        i += 1;
        assert(out@ =~= blanked(v@).subrange(0, i as int));
    }
    assert(out@ =~= blanked(v@));
    out
}

/// A selector in the readings that discovery tries.
pub struct TypeSelector {
    pub selector: String,
    pub table_name: String,
    pub label: String,
    pub alias: Option<String>,
    pub is_prefix: bool,
    pub alphabetic: bool,
}

pub open spec fn looks_like_prefix(s: Seq<char>) -> bool {
    byte_len(s) <= 40 && all_chars(s, |c: char| is_upper(c) || is_digit(c))
}

impl TypeSelector {
    /// The readings are those of the selector.
    pub open spec fn of(self, selector: Seq<char>) -> bool {
        &&& self.selector@ == selector
        &&& self.table_name@ == lower(selector)
        &&& self.label@ == blanked(selector)
        &&& text_of(self.alias) == alias_from(lower(selector), 0)
        &&& self.is_prefix == looks_like_prefix(selector)
        &&& self.alphabetic == all_chars(selector, |c: char| is_letter(c))
    }
}

/// What discovery does next.
pub enum TypeStage {
    /// Ask the prefix metadata. Only the last attempt may fail the search.
    Prefix { prefix: String, last: bool },
    /// Ask the table catalog.
    Catalog,
    /// Ask the dictionary of reference fields.
    References,
    /// Look up the definition of the next table; `found` holds those before it.
    Define { tables: TypeTables, found: Vec<RecordType> },
    /// The types are known.
    Done { types: Vec<RecordType> },
}

fn all_upper_or_digit(v: &Vec<char>) -> (r: bool)
    ensures
        r == all_chars(v@, |c: char| is_upper(c) || is_digit(c)),
{
    let mut i: usize = 0;
    while i < v.len()
        invariant
            i <= v@.len(),
            forall|j: int| 0 <= j < i ==> is_upper(#[trigger] v@[j]) || is_digit(v@[j]),
        decreases v@.len() - i,
    {
        let c: char = v[i];
        if !(('A' <= c && c <= 'Z') || ('0' <= c && c <= '9')) {
            assert(!(is_upper(v@[i as int]) || is_digit(v@[i as int])));
            return false;
        }
        i += 1;
    }
    true
}

fn all_letters(v: &Vec<char>) -> (r: bool)
    ensures
        r == all_chars(v@, |c: char| is_letter(c)),
{
    let mut i: usize = 0;
    while i < v.len()
        invariant
            i <= v@.len(),
            forall|j: int| 0 <= j < i ==> is_letter(#[trigger] v@[j]),
        decreases v@.len() - i,
    {
        let c: char = v[i];
        if !(('A' <= c && c <= 'Z') || ('a' <= c && c <= 'z')) {
            assert(!is_letter(v@[i as int]));
            return false;
        }
        i += 1;
    }
    true
}

/// Begins to discover the types that a selector stands for. A selector in
/// capitals and digits is first tried as a number prefix.
pub fn begin_type_search(selector: &str) -> (r: Result<
    (TypeSelector, TypeStage),
    RecordResolveError,
>)
    ensures
        match r {
            Ok((sel, stage)) => {
                &&& literal_of(selector@) is Ok
                &&& sel.of(trim(selector@))
                &&& sel.is_prefix ==> (stage matches TypeStage::Prefix { prefix, last } && prefix@
                    == trim(selector@) && !last)
                &&& !sel.is_prefix ==> stage is Catalog
            },
            Err(e) => literal_of(selector@) == Err::<Seq<char>, ResolveErrorView>(e@),
        },
{
    let selector: String = match literal(selector) {
        Ok(s) => s,
        Err(e) => return Err(e),
    };
    let v: Vec<char> = chars_of(selector.as_str());
    let is_prefix: bool = byte_length(selector.as_str()) <= 40 && all_upper_or_digit(&v);
    let table_name: String = lower_text(selector.as_str());
    let alias: Option<String> = alias_table(table_name.as_str());
    let stage: TypeStage = if is_prefix {
        TypeStage::Prefix { prefix: selector.clone(), last: false }
    } else {
        TypeStage::Catalog
    };
    let sel = TypeSelector {
        label: blanked_text(selector.as_str()),
        alphabetic: all_letters(&v),
        selector,
        table_name,
        alias,
        is_prefix,
    };
    Ok((sel, stage))
}

/// The stage that looks up the definitions of some tables, one by one.
pub open spec fn defining(stage: TypeStage, tables: Seq<Seq<char>>, source: Seq<char>) -> bool {
    if tables.len() == 0 {
        stage matches TypeStage::Done { types } && types@.len() == 0
    } else {
        stage matches TypeStage::Define { tables: t, found } && texts(t.tables@) == tables
            && t.source@ == source && found@.len() == 0
    }
}

fn define(tables: TypeTables) -> (r: TypeStage)
    ensures
        defining(r, texts(tables.tables@), tables.source@),
{
    if tables.tables.is_empty() {
        TypeStage::Done { types: Vec::new() }
    } else {
        TypeStage::Define { tables, found: Vec::new() }
    }
}

/// After the prefix metadata: tables are defined. The first attempt goes on to
/// the catalog when it brought none, whatever the reason; the last one does not.
pub open spec fn prefix_next(
    last: bool,
    answer: Result<TypeTables, RecordResolveError>,
    r: Result<TypeStage, RecordResolveError>,
) -> bool {
    match answer {
        Ok(t) => r is Ok && (if !last && t.tables@.len() == 0 {
            r->Ok_0 is Catalog
        } else {
            defining(r->Ok_0, texts(t.tables@), t.source@)
        }),
        Err(e) => if last {
            r is Err && r->Err_0 == e
        } else {
            r is Ok && r->Ok_0 is Catalog
        },
    }
}

pub fn after_prefix(last: bool, answer: Result<TypeTables, RecordResolveError>) -> (r: Result<
    TypeStage,
    RecordResolveError,
>)
    ensures
        prefix_next(last, answer, r),
{
    match answer {
        Ok(tables) => if !last && tables.tables.is_empty() {
            Ok(TypeStage::Catalog)
        } else {
            Ok(define(tables))
        },
        Err(e) => if last {
            Err(e)
        } else {
            Ok(TypeStage::Catalog)
        },
    }
}

pub open spec fn catalog_query_of(sel: Seq<char>) -> QueryView {
    let q = QueryView::of("sys_db_object"@).field("name"@).field("label"@).equals(
        "name"@,
        lower(sel),
    ).or_equals("label"@, blanked(sel)).limit(21).no_count();
    match alias_from(lower(sel), 0) {
        Some(alias) => q.or_equals("name"@, alias),
        None => q,
    }
}

pub fn catalog_query(sel: &TypeSelector) -> (q: Query)
    requires
        sel.of(sel.selector@),
    ensures
        q@ == catalog_query_of(sel.selector@),
{
    let q: Query = Query::of("sys_db_object").field("name").field("label").equals(
        "name",
        sel.table_name.as_str(),
    ).or_equals("label", sel.label.as_str()).limit(21).no_count();
    match &sel.alias {
        Some(alias) => q.or_equals("name", alias.as_str()),
        None => q,
    }
}

/// Why a catalog row is refused for a selector.
pub open spec fn catalog_row_failure(row: RowView, sel: Seq<char>) -> Option<ResolveErrorView> {
    match row.raw("name"@) {
        Some(table) if is_identifier(table) => match row.raw("label"@) {
            Some(label) if label.len() > 0 => if table != lower(sel) && Some(table) != alias_from(
                lower(sel),
                0,
            ) && !same_ignoring_case(label, blanked(sel)) {
                Some(ResolveErrorView::Integrity("table catalog returned an unrelated type"@))
            } else {
                None
            },
            _ => Some(ResolveErrorView::Unavailable("table label is unreadable"@)),
        },
        _ => Some(ResolveErrorView::Integrity("table catalog returned an invalid name"@)),
    }
}

pub open spec fn catalog_check(sel: Seq<char>) -> spec_fn(RowView) -> Option<ResolveErrorView> {
    |row: RowView| catalog_row_failure(row, sel)
}

pub open spec fn catalog_type(row: RowView) -> RecordTypeView {
    RecordTypeView {
        table: row.raw("name"@)->0,
        label: row.raw("label"@)->0,
        resource_type: type_of_table(row.raw("name"@)->0),
        source: "table_metadata"@,
    }
}

/// After the table catalog: every row must belong to the selector. Rows settle
/// the types; without rows the reference fields are asked.
pub open spec fn catalog_next(
    selector: Seq<char>,
    reply: Result<PageView, Failure>,
    r: Result<TypeStage, RecordResolveError>,
) -> bool {
    match reply {
        Err(_) => r is Err && r->Err_0@ == ResolveErrorView::Unavailable(
            "table catalog is unreadable"@,
        ),
        Ok(page) => if page.partial || page.rows.len() > 20 {
            r is Err && r->Err_0@ == ResolveErrorView::Unavailable(
                "table selector is too broad or metadata is incomplete"@,
            )
        } else {
            match first_failure(page.rows, catalog_check(selector)) {
                Some(e) => r is Err && r->Err_0@ == e,
                None => r is Ok && (if page.rows.len() == 0 {
                    r->Ok_0 is References
                } else {
                    r->Ok_0 matches TypeStage::Done { types } && type_views(types@)
                        == page.rows.map_values(|row: RowView| catalog_type(row))
                }),
            }
        },
    }
}

#[verifier::loop_isolation(false)]
pub fn after_catalog(sel: &TypeSelector, reply: &Result<Page, Failure>) -> (r: Result<
    TypeStage,
    RecordResolveError,
>)
    requires
        sel.of(sel.selector@),
    ensures
        catalog_next(sel.selector@, reply_view(*reply), r),
{
    let page: &Page = match reply {
        Ok(page) => page,
        Err(_) => return Err(unavailable("table catalog is unreadable")),
    };
    if page.partial || page.rows.len() > 20 {
        return Err(unavailable("table selector is too broad or metadata is incomplete"));
    }
    let ghost rows = page@.rows;
    let ghost check = catalog_check(sel.selector@);
    let ghost wanted = rows.map_values(|row: RowView| catalog_type(row));
    let mut types: Vec<RecordType> = Vec::new();
    let mut i: usize = 0;
    while i < page.rows.len()
        invariant
            i <= page.rows@.len(),
            types@.len() == i,
            forall|j: int| 0 <= j < i ==> check(#[trigger] rows[j]) is None,
            forall|j: int| 0 <= j < i ==> (#[trigger] types@[j])@ == wanted[j],
        decreases page.rows@.len() - i,
    {
        let row: &Row = &page.rows[i];
        assert(rows[i as int] == row@);
        proof {
            if check(rows[i as int]) is Some {
                lemma_failure_at(rows, check, i as int);
            }
        }
        let table: &str = match row.get_raw("name") {
            Some(t) => if identifier(t) {
                t
            } else {
                return Err(integrity("table catalog returned an invalid name"));
            },
            None => return Err(integrity("table catalog returned an invalid name")),
        };
        let label: &str = match row.get_raw("label") {
            Some(l) => if l.is_empty() {
                return Err(unavailable("table label is unreadable"));
            } else {
                l
            },
            None => return Err(unavailable("table label is unreadable")),
        };
        let is_alias: bool = match &sel.alias {
            Some(alias) => same(alias.as_str(), table),
            None => false,
        };
        if !same(table, sel.table_name.as_str()) && !is_alias && !same_any_case(
            label,
            sel.label.as_str(),
        ) {
            return Err(integrity("table catalog returned an unrelated type"));
        }
        types.push(
            RecordType {
                table: table.to_owned(),
                label: label.to_owned(),
                resource_type: resource_type(table),
                source: "table_metadata".to_owned(),
            },
        );
        i += 1;
    }
    proof {
        lemma_no_failure(rows, check);
        assert(type_views(types@) =~= wanted);
    }
    if types.is_empty() {
        Ok(TypeStage::References)
    } else {
        Ok(TypeStage::Done { types })
    }
}

pub open spec fn reference_query_of(sel: Seq<char>) -> QueryView {
    QueryView::of("sys_dictionary"@).field("element"@).field("column_label"@).field(
        "reference"@,
    ).equals("element"@, lower(sel)).or_equals("column_label"@, blanked(sel)).limit(101).no_count()
}

pub fn reference_query(sel: &TypeSelector) -> (q: Query)
    requires
        sel.of(sel.selector@),
    ensures
        q@ == reference_query_of(sel.selector@),
{
    Query::of("sys_dictionary").field("element").field("column_label").field("reference").equals(
        "element",
        sel.table_name.as_str(),
    ).or_equals("column_label", sel.label.as_str()).limit(101).no_count()
}

pub open spec fn reference_row_failure(row: RowView, sel: Seq<char>) -> Option<ResolveErrorView> {
    if row.raw("element"@) != Some(lower(sel)) && !(row.raw("column_label"@) is Some
        && same_ignoring_case(row.raw("column_label"@)->0, blanked(sel))) {
        Some(ResolveErrorView::Integrity("reference metadata did not match"@))
    } else {
        match row.raw("reference"@) {
            Some(t) if t.len() > 0 && !is_identifier(t) => Some(
                ResolveErrorView::Integrity("reference metadata returned an invalid table"@),
            ),
            _ => None,
        }
    }
}

pub open spec fn reference_check(sel: Seq<char>) -> spec_fn(RowView) -> Option<ResolveErrorView> {
    |row: RowView| reference_row_failure(row, sel)
}

/// After the reference fields: the tables that they point to are defined, in
/// ascending order. Where there are none, a selector of letters only is tried as
/// a number prefix.
pub open spec fn references_next(
    selector: Seq<char>,
    reply: Result<PageView, Failure>,
    r: Result<TypeStage, RecordResolveError>,
) -> bool {
    match reply {
        Err(_) => r is Err && r->Err_0@ == ResolveErrorView::Unavailable(
            "reference field metadata is unreadable"@,
        ),
        Ok(page) => if page.partial || page.rows.len() > 100 {
            r is Err && r->Err_0@ == ResolveErrorView::Unavailable(
                "reference selector is too broad"@,
            )
        } else {
            match first_failure(page.rows, reference_check(selector)) {
                Some(e) => r is Err && r->Err_0@ == e,
                None => r is Ok && exists|tables: Seq<Seq<char>>|
                    #![trigger ascending(tables)]
                    {
                        &&& ascending(tables)
                        &&& forall|t: Seq<char>| #[trigger]
                            tables.contains(t) <==> t.len() > 0 && value_among(
                                page.rows,
                                page.rows.len() as int,
                                "reference"@,
                                t,
                            )
                        &&& if tables.len() == 0 && all_chars(selector, |c: char| is_letter(c)) {
                            r->Ok_0 matches TypeStage::Prefix { prefix, last } && prefix@
                                == upper(selector) && last
                        } else {
                            defining(r->Ok_0, tables, "reference_metadata"@)
                        }
                    },
            }
        },
    }
}

#[verifier::loop_isolation(false)]
pub fn after_references(sel: &TypeSelector, reply: &Result<Page, Failure>) -> (r: Result<
    TypeStage,
    RecordResolveError,
>)
    requires
        sel.of(sel.selector@),
    ensures
        references_next(sel.selector@, reply_view(*reply), r),
{
    let page: &Page = match reply {
        Ok(page) => page,
        Err(_) => return Err(unavailable("reference field metadata is unreadable")),
    };
    if page.partial || page.rows.len() > 100 {
        return Err(unavailable("reference selector is too broad"));
    }
    let ghost rows = page@.rows;
    let ghost check = reference_check(sel.selector@);
    let mut tables: Vec<String> = Vec::new();
    let mut i: usize = 0;
    assert(texts(tables@) =~= Seq::empty());
    while i < page.rows.len()
        invariant
            i <= page.rows@.len(),
            forall|j: int| 0 <= j < i ==> check(#[trigger] rows[j]) is None,
            ascending(texts(tables@)),
            forall|t: Seq<char>| #[trigger]
                texts(tables@).contains(t) <==> t.len() > 0 && value_among(
                    rows,
                    i as int,
                    "reference"@,
                    t,
                ),
        decreases page.rows@.len() - i,
    {
        let row: &Row = &page.rows[i];
        assert(rows[i as int] == row@);
        proof {
            if check(rows[i as int]) is Some {
                lemma_failure_at(rows, check, i as int);
            }
            lemma_value_added(rows, i as int, "reference"@);
        }
        let by_name: bool = match row.get_raw("element") {
            Some(e) => same(e, sel.table_name.as_str()),
            None => false,
        };
        let by_label: bool = match row.get_raw("column_label") {
            Some(l) => same_any_case(l, sel.label.as_str()),
            None => false,
        };
        if !by_name && !by_label {
            return Err(integrity("reference metadata did not match"));
        }
        if let Some(t) = row.get_raw("reference") {
            if !t.is_empty() {
                if !identifier(t) {
                    return Err(integrity("reference metadata returned an invalid table"));
                }
                insert_ascending(&mut tables, t);
            }
        }
        i += 1;
    }
    proof {
        lemma_no_failure(rows, check);
        assert(ascending(texts(tables@)));
    }
    if tables.is_empty() && sel.alphabetic {
        Ok(TypeStage::Prefix { prefix: upper_text(sel.selector.as_str()), last: true })
    } else {
        Ok(define(TypeTables { tables, source: "reference_metadata".to_owned() }))
    }
}

impl TypeStage {
    /// A stage that defines tables has one left to define.
    pub open spec fn well_formed(self) -> bool {
        self matches TypeStage::Define { tables, found } ==> found@.len() < tables.tables@.len()
    }
}

/// After one table definition: it joins those before it. The search is over once
/// every table is defined; one definition that fails fails the search.
pub open spec fn definition_next(
    tables: TypeTables,
    found: Vec<RecordType>,
    reply: Result<PageView, Failure>,
    r: Result<TypeStage, RecordResolveError>,
) -> bool {
    match definition_of(
        tables.tables@[found@.len() as int]@,
        tables.source@,
        reply,
    ) {
        Err(e) => r is Err && r->Err_0@ == e,
        Ok(t) => r is Ok && (if found@.len() + 1 == tables.tables@.len() {
            r->Ok_0 matches TypeStage::Done { types } && type_views(types@) == type_views(
                found@,
            ).push(t)
        } else {
            r->Ok_0 matches TypeStage::Define { tables: rest, found: types } && rest == tables
                && type_views(types@) == type_views(found@).push(t)
        }),
    }
}

pub fn after_definition(
    tables: TypeTables,
    found: Vec<RecordType>,
    reply: &Result<Page, Failure>,
) -> (r: Result<TypeStage, RecordResolveError>)
    requires
        found@.len() < tables.tables@.len(),
    ensures
        definition_next(tables, found, reply_view(*reply), r),
{
    let at: usize = found.len();
    match table_definition(tables.tables[at].as_str(), tables.source.as_str(), reply) {
        Err(e) => Err(e),
        Ok(t) => {
            let mut types: Vec<RecordType> = found;
            types.push(t);
            assert(type_views(types@) =~= type_views(found@).push(t@));
            if types.len() == tables.tables.len() {
                Ok(TypeStage::Done { types })
            } else {
                Ok(TypeStage::Define { tables, found: types })
            }
        },
    }
}

pub open spec fn not_unique() -> ResolveErrorView {
    ResolveErrorView::InvalidParams(
        "type selector is missing or ambiguous; call record_resolve with resource_type only and select its canonical table"@,
    )
}

/// The one type that a selector stands for; none or several are refused.
pub fn unique_type(types: Vec<RecordType>) -> (r: Result<RecordType, RecordResolveError>)
    ensures
        match r {
            Ok(t) => types@.len() == 1 && t == types@[0],
            Err(e) => types@.len() != 1 && e@ == not_unique(),
        },
{
    let mut types = types;
    if types.len() != 1 {
        return Err(
            invalid(
                "type selector is missing or ambiguous; call record_resolve with resource_type only and select its canonical table",
            ),
        );
    }
    Ok(types.remove(0))
}

} // verus!
