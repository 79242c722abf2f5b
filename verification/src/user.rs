//! Looking up and searching users.
use vstd::prelude::*;
use vstd::string::*;

use crate::article::is_blank;
use crate::knowledge_sync::Moment;
use crate::markdown::{join_texts, joined_with};
use crate::query::{DisplayMode, Query, QueryView};
use crate::row::{Row, RowView};
use crate::tables::{bad_sys_id, normalize_record_lookup_sys_id, sys_id_of};
use crate::tags::tag_of;
use crate::text::{
    chars_of, copy_text, decimal, decimal_text, joined, lemma_texts_push, lower_text, names_of,
    same, strings_of, text_of, text_of_ref, texts, trim, trim_text,
};

verus! {

pub const USER_LOOKUP_FIELDS: [&'static str; 11] = [
    "sys_id",
    "user_name",
    "name",
    "first_name",
    "last_name",
    "email",
    "employee_number",
    "active",
    "department",
    "location",
    "title",
];

pub const USER_SEARCH_DEFAULT_LIMIT: usize = 20;

pub const USER_SEARCH_MAX_LIMIT: usize = 100;

#[derive(Debug, Clone, PartialEq, Eq)]
pub struct UserLookup {
    pub query: Option<String>,
    pub user_name: Option<String>,
    pub email: Option<String>,
    pub employee_number: Option<String>,
    pub sys_id: Option<String>,
    pub active: Option<bool>,
}

#[derive(Debug, Clone, PartialEq, Eq)]
pub struct UserSearch {
    pub first_name: Option<String>,
    pub last_name: Option<String>,
    pub name_contains: Option<String>,
    pub email_contains: Option<String>,
    pub limit: Option<usize>,
    pub active: Option<bool>,
}

#[derive(Debug, Clone, PartialEq, Eq)]
pub struct UserLookupResult {
    pub matched_by: String,
    pub user: UserRecord,
}

#[derive(Debug, Clone, PartialEq, Eq)]
pub struct UserRecord {
    pub sys_id: String,
    pub table: String,
    pub user_name: Option<String>,
    pub name: Option<String>,
    pub first_name: Option<String>,
    pub last_name: Option<String>,
    pub email: Option<String>,
    pub employee_number: Option<String>,
    pub active: Option<bool>,
    pub department: Option<String>,
    pub location: Option<String>,
    pub title: Option<String>,
    pub display: String,
}

// --- what is looked for ---

/// A text that is given: trimmed, and there only where it is not blank.
pub open spec fn given(o: Option<Seq<char>>) -> Option<Seq<char>> {
    match o {
        Some(s) => if is_blank(s) {
            None
        } else {
            Some(trim(s))
        },
        None => None,
    }
}

pub fn given_text(o: Option<&str>) -> (r: Option<String>)
    ensures
        text_of(r) == given(text_of_ref(o)),
{
    match o {
        Some(s) => {
            let t: String = trim_text(s);
            if t.as_str().unicode_len() == 0 {
                None
            } else {
                Some(t)
            }
        },
        None => None,
    }
}

/// The text of an optional string, borrowed.
pub fn borrowed(o: &Option<String>) -> (r: Option<&str>)
    ensures
        text_of_ref(r) == text_of(*o),
{
    match o {
        Some(s) => Some(s.as_str()),
        None => None,
    }
}

/// How many of the five selectors are given.
pub open spec fn selector_count(lookup: UserLookup) -> int {
    let one = |o: Option<String>|
        if given(text_of(o)) is Some {
            1int
        } else {
            0int
        };
    one(lookup.query) + one(lookup.user_name) + one(lookup.email) + one(lookup.employee_number)
        + one(lookup.sys_id)
}

pub open spec fn missing_selector() -> Seq<char> {
    "missing required user lookup: provide exactly one of query, user_name, email, employee_number, or sys_id"@
}

pub open spec fn ambiguous_selector() -> Seq<char> {
    "ambiguous user lookup: provide exactly one of query, user_name, email, employee_number, or sys_id"@
}

fn count_given(o: &Option<String>) -> (r: usize)
    ensures
        r == (if given(text_of(*o)) is Some {
            1int
        } else {
            0int
        }),
{
    match given_text(borrowed(o)) {
        Some(_) => 1,
        None => 0,
    }
}

impl UserLookup {
    /// Checks that exactly one selector is given.
    pub fn validate_selector(&self) -> (r: Result<(), String>)
        ensures
            match r {
                Ok(_) => selector_count(*self) == 1,
                Err(e) => selector_count(*self) != 1 && e@ == (if selector_count(*self) == 0 {
                    missing_selector()
                } else {
                    ambiguous_selector()
                }),
            },
    {
        let count: usize = count_given(&self.query) + count_given(&self.user_name) + count_given(
            &self.email,
        ) + count_given(&self.employee_number) + count_given(&self.sys_id);
        if count == 1 {
            Ok(())
        } else if count == 0 {
            Err(
                "missing required user lookup: provide exactly one of query, user_name, email, employee_number, or sys_id".to_owned(),
            )
        } else {
            Err(
                "ambiguous user lookup: provide exactly one of query, user_name, email, employee_number, or sys_id".to_owned(),
            )
        }
    }
}

/// The limit that counts.
pub open spec fn search_limit(limit: Option<usize>) -> usize {
    match limit {
        Some(n) => n,
        None => USER_SEARCH_DEFAULT_LIMIT,
    }
}

/// What is wrong with the limit of a search, if anything.
pub open spec fn limit_fault(limit: Option<usize>) -> Option<Seq<char>> {
    if search_limit(limit) == 0 {
        Some("`limit` must be at least 1"@)
    } else if search_limit(limit) > USER_SEARCH_MAX_LIMIT {
        Some("`limit` must be at most 100"@)
    } else {
        None
    }
}

/// What is wrong with a search, if anything.
pub open spec fn search_fault(search: UserSearch) -> Option<Seq<char>> {
    match limit_fault(search.limit) {
        Some(e) => Some(e),
        None => if given(text_of(search.first_name)) is None && given(text_of(search.last_name)) is None
            && given(text_of(search.name_contains)) is None && given(
            text_of(search.email_contains),
        ) is None {
            Some(
                "missing required user search: provide at least one of first_name, last_name, name_contains, or email_contains"@,
            )
        } else {
            None
        },
    }
}

impl UserSearch {
    /// Checks a search.
    pub fn validate(&self) -> (r: Result<(), String>)
        ensures
            match r {
                Ok(_) => search_fault(*self) is None,
                Err(e) => search_fault(*self) == Some(e@),
            },
    {
        match self.validated_limit() {
            Ok(_) => {},
            Err(e) => {
                return Err(e);
            },
        }
        let count: usize = count_given(&self.first_name) + count_given(&self.last_name)
            + count_given(&self.name_contains) + count_given(&self.email_contains);
        if count == 0 {
            return Err(
                "missing required user search: provide at least one of first_name, last_name, name_contains, or email_contains".to_owned(),
            );
        }
        Ok(())
    }

    /// The limit of a search, or what is wrong with it.
    pub fn validated_limit(&self) -> (r: Result<usize, String>)
        ensures
            match r {
                Ok(n) => limit_fault(self.limit) is None && n == search_limit(self.limit),
                Err(e) => limit_fault(self.limit) == Some(e@),
            },
    {
        let limit: usize = match self.limit {
            Some(n) => n,
            None => USER_SEARCH_DEFAULT_LIMIT,
        };
        if limit == 0 {
            return Err("`limit` must be at least 1".to_owned());
        }
        if limit > USER_SEARCH_MAX_LIMIT {
            return Err("`limit` must be at most 100".to_owned());
        }
        Ok(limit)
    }
}

/// A field, and the value that it is to have.
#[derive(Debug, Clone, PartialEq, Eq)]
pub struct UserLookupCandidate {
    pub field: &'static str,
    pub value: String,
}

pub struct CandidateView {
    pub field: Seq<char>,
    pub value: Seq<char>,
}

impl View for UserLookupCandidate {
    type V = CandidateView;

    open spec fn view(&self) -> CandidateView {
        CandidateView { field: self.field@, value: self.value@ }
    }
}

pub open spec fn candidate(field: Seq<char>, value: Seq<char>) -> CandidateView {
    CandidateView { field, value }
}

pub open spec fn candidate_views(list: Seq<UserLookupCandidate>) -> Seq<CandidateView> {
    list.map_values(|c: UserLookupCandidate| c@)
}

/// What a free query may be: with an at sign an address or a name, else an id,
/// else a name, an address or a number, tried in this order.
pub open spec fn query_candidates(query: Seq<char>) -> Seq<CandidateView> {
    if query.contains('@') {
        seq![candidate("email"@, query), candidate("user_name"@, query)]
    } else {
        match sys_id_of(query) {
            Some(id) => seq![candidate("sys_id"@, id)],
            None => seq![
                candidate("user_name"@, query),
                candidate("email"@, query),
                candidate("employee_number"@, query),
            ],
        }
    }
}

/// What is looked for, in order, or what is wrong with the lookup.
pub open spec fn lookup_candidates(lookup: UserLookup) -> Result<Seq<CandidateView>, Seq<char>> {
    match given(text_of(lookup.sys_id)) {
        Some(text) => match sys_id_of(text) {
            Some(id) => Ok(seq![candidate("sys_id"@, id)]),
            None => Err(bad_sys_id()),
        },
        None => match given(text_of(lookup.user_name)) {
            Some(text) => Ok(seq![candidate("user_name"@, text)]),
            None => match given(text_of(lookup.email)) {
                Some(text) => Ok(seq![candidate("email"@, text)]),
                None => match given(text_of(lookup.employee_number)) {
                    Some(text) => Ok(seq![candidate("employee_number"@, text)]),
                    None => match given(text_of(lookup.query)) {
                        Some(text) => Ok(query_candidates(text)),
                        None => Err(missing_selector()),
                    },
                },
            },
        },
    }
}

fn has_at_sign(s: &str) -> (r: bool)
    ensures
        r == s@.contains('@'),
{
    let v: Vec<char> = chars_of(s);
    let mut i: usize = 0;
    while i < v.len()
        invariant
            i <= v@.len(),
            v@ == s@,
            forall|k: int| 0 <= k < i ==> v@[k] != '@',
        decreases v@.len() - i,
    {
        if v[i] == '@' {
            return true;
        }
        i += 1;
    }
    false
}

fn single(field: &'static str, value: String) -> (r: Vec<UserLookupCandidate>)
    ensures
        candidate_views(r@) == seq![candidate(field@, value@)],
{
    let mut out: Vec<UserLookupCandidate> = Vec::new();
    out.push(UserLookupCandidate { field, value });
    assert(candidate_views(out@) =~= seq![candidate(field@, value@)]);
    out
}

fn free_candidates(query: String) -> (r: Vec<UserLookupCandidate>)
    ensures
        candidate_views(r@) == query_candidates(query@),
{
    if has_at_sign(query.as_str()) {
        let mut out: Vec<UserLookupCandidate> = Vec::new();
        out.push(UserLookupCandidate { field: "email", value: query.clone() });
        out.push(UserLookupCandidate { field: "user_name", value: query });
        assert(candidate_views(out@) =~= query_candidates(query@));
        return out;
    }
    if let Ok(id) = normalize_record_lookup_sys_id(query.as_str()) {
        return single("sys_id", id);
    }
    let mut out: Vec<UserLookupCandidate> = Vec::new();
    out.push(UserLookupCandidate { field: "user_name", value: query.clone() });
    out.push(UserLookupCandidate { field: "email", value: query.clone() });
    out.push(UserLookupCandidate { field: "employee_number", value: query });
    assert(candidate_views(out@) =~= query_candidates(query@));
    out
}

/// What is looked for, in order.
pub fn user_lookup_candidates(lookup: &UserLookup) -> (r: Result<Vec<UserLookupCandidate>, String>)
    ensures
        match r {
            Ok(list) => lookup_candidates(*lookup) == Ok::<Seq<CandidateView>, Seq<char>>(
                candidate_views(list@),
            ),
            Err(e) => lookup_candidates(*lookup) == Err::<Seq<CandidateView>, Seq<char>>(e@),
        },
{
    if let Some(text) = given_text(borrowed(&lookup.sys_id)) {
        return match normalize_record_lookup_sys_id(text.as_str()) {
            Ok(id) => Ok(single("sys_id", id)),
            Err(e) => Err(e),
        };
    }
    if let Some(text) = given_text(borrowed(&lookup.user_name)) {
        return Ok(single("user_name", text));
    }
    if let Some(text) = given_text(borrowed(&lookup.email)) {
        return Ok(single("email", text));
    }
    if let Some(text) = given_text(borrowed(&lookup.employee_number)) {
        return Ok(single("employee_number", text));
    }
    match given_text(borrowed(&lookup.query)) {
        Some(text) => Ok(free_candidates(text)),
        None => Err(
            "missing required user lookup: provide exactly one of query, user_name, email, employee_number, or sys_id".to_owned(),
        ),
    }
}

/// A lookup with exactly one selector is looked for by at least one field, and
/// fails only over an id that is none.
pub proof fn valid_lookups_are_looked_for(lookup: UserLookup)
    requires
        selector_count(lookup) == 1,
    ensures
        match lookup_candidates(lookup) {
            Ok(list) => 1 <= list.len() <= 3,
            Err(e) => e == bad_sys_id() && given(text_of(lookup.sys_id)) is Some,
        },
{
}

// --- what is asked of the provider ---

pub open spec fn active_text(active: bool) -> Seq<char> {
    if active {
        "true"@
    } else {
        "false"@
    }
}

fn active_value(active: bool) -> (r: &'static str)
    ensures
        r@ == active_text(active),
{
    if active {
        "true"
    } else {
        "false"
    }
}

/// The query for one candidate. Two rows are enough to tell that more than one
/// user matches.
pub fn user_lookup_query(c: &UserLookupCandidate, active: bool) -> (r: Query)
    ensures
        r@ == QueryView::of("sys_user"@).equals(c@.field, c@.value).equals(
            "active"@,
            active_text(active),
        ).fields(names_of(USER_LOOKUP_FIELDS@)).display(DisplayMode::Both).limit(2),
{
    Query::of("sys_user").equals(c.field, c.value.as_str()).equals(
        "active",
        active_value(active),
    ).fields(&strings_of(&USER_LOOKUP_FIELDS)).display(DisplayMode::Both).limit(2)
}

pub open spec fn equals_given(q: QueryView, field: Seq<char>, value: Option<Seq<char>>) -> QueryView {
    match value {
        Some(v) => q.equals(field, v),
        None => q,
    }
}

pub open spec fn contains_given(q: QueryView, field: Seq<char>, value: Option<Seq<char>>) -> QueryView {
    match value {
        Some(v) => q.contains(field, v),
        None => q,
    }
}

/// The query of a search.
pub open spec fn search_query(search: UserSearch) -> QueryView {
    let active = match search.active {
        Some(a) => a,
        None => true,
    };
    let base = QueryView::of("sys_user"@).equals("active"@, active_text(active)).fields(
        names_of(USER_LOOKUP_FIELDS@),
    ).display(DisplayMode::Both).limit(search_limit(search.limit) as u32).ascending("name"@);
    let a = equals_given(base, "first_name"@, given(text_of(search.first_name)));
    let b = equals_given(a, "last_name"@, given(text_of(search.last_name)));
    let c = contains_given(b, "name"@, given(text_of(search.name_contains)));
    contains_given(c, "email"@, given(text_of(search.email_contains)))
}

/// The query of a search, or what is wrong with the search.
pub fn user_search_query(search: &UserSearch) -> (r: Result<Query, String>)
    ensures
        match r {
            Ok(q) => search_fault(*search) is None && q@ == search_query(*search),
            Err(e) => search_fault(*search) == Some(e@),
        },
{
    match search.validate() {
        Ok(_) => {},
        Err(e) => {
            return Err(e);
        },
    }
    let limit: usize = match search.validated_limit() {
        Ok(n) => n,
        Err(e) => {
            return Err(e);
        },
    };
    let active: bool = match search.active {
        Some(a) => a,
        None => true,
    };
    let mut q: Query = Query::of("sys_user").equals("active", active_value(active)).fields(
        &strings_of(&USER_LOOKUP_FIELDS),
    ).display(DisplayMode::Both).limit(limit as u32).ascending("name");
    if let Some(v) = given_text(borrowed(&search.first_name)) {
        q = q.equals("first_name", v.as_str());
    }
    if let Some(v) = given_text(borrowed(&search.last_name)) {
        q = q.equals("last_name", v.as_str());
    }
    if let Some(v) = given_text(borrowed(&search.name_contains)) {
        q = q.contains("name", v.as_str());
    }
    if let Some(v) = given_text(borrowed(&search.email_contains)) {
        q = q.contains("email", v.as_str());
    }
    Ok(q)
}

// --- what comes back ---

/// The truth value that a text writes.
pub open spec fn truth_of(value: Seq<char>) -> Option<bool> {
    let t = tag_of(value);
    if t == "true"@ || t == "1"@ || t == "yes"@ {
        Some(true)
    } else if t == "false"@ || t == "0"@ || t == "no"@ {
        Some(false)
    } else {
        None
    }
}

pub fn parse_bool(value: &str) -> (r: Option<bool>)
    ensures
        r == truth_of(value@),
{
    let trimmed: String = trim_text(value);
    let lowered: String = lower_text(trimmed.as_str());
    let t: &str = lowered.as_str();
    if same(t, "true") || same(t, "1") || same(t, "yes") {
        Some(true)
    } else if same(t, "false") || same(t, "0") || same(t, "no") {
        Some(false)
    } else {
        None
    }
}

pub open spec fn optional_truth(o: Option<Seq<char>>) -> Option<bool> {
    match o {
        Some(t) => truth_of(t),
        None => None,
    }
}

/// The truth value of a field: that which it holds, else that which its text
/// writes, else that which is shown.
pub open spec fn field_truth(row: RowView, field: Seq<char>) -> Option<bool> {
    if row.other(field) == Some("true"@) {
        Some(true)
    } else if row.other(field) == Some("false"@) {
        Some(false)
    } else if optional_truth(row.raw(field)) is Some {
        optional_truth(row.raw(field))
    } else {
        optional_truth(row.display(field))
    }
}

pub fn bool_field(row: &Row, field: &str) -> (r: Option<bool>)
    ensures
        r == field_truth(row@, field@),
{
    if let Some(t) = row.get_other(field) {
        if same(t, "true") {
            return Some(true);
        }
        if same(t, "false") {
            return Some(false);
        }
    }
    if let Some(t) = row.get_raw(field) {
        if let Some(b) = parse_bool(t) {
            return Some(b);
        }
    }
    match row.get_display(field) {
        Some(t) => parse_bool(t),
        None => None,
    }
}

/// The first of the texts that is given, else the id.
pub open spec fn display_of(
    name: Option<Seq<char>>,
    user_name: Option<Seq<char>>,
    email: Option<Seq<char>>,
    sys_id: Seq<char>,
) -> Seq<char> {
    match given(name) {
        Some(t) => t,
        None => match given(user_name) {
            Some(t) => t,
            None => match given(email) {
                Some(t) => t,
                None => sys_id,
            },
        },
    }
}

fn display_text(name: Option<&str>, user_name: Option<&str>, email: Option<&str>, sys_id: &str) -> (r:
    String)
    ensures
        r@ == display_of(text_of_ref(name), text_of_ref(user_name), text_of_ref(email), sys_id@),
{
    match given_text(name) {
        Some(t) => t,
        None => match given_text(user_name) {
            Some(t) => t,
            None => match given_text(email) {
                Some(t) => t,
                None => sys_id.to_owned(),
            },
        },
    }
}

/// Whether a user is the one that the row shows.
pub open spec fn is_user_of(u: UserRecord, row: RowView) -> bool {
    &&& u.sys_id@ == row.sys_id
    &&& u.table@ == "sys_user"@
    &&& text_of(u.user_name) == given(row.shown("user_name"@))
    &&& text_of(u.name) == given(row.shown("name"@))
    &&& text_of(u.first_name) == given(row.shown("first_name"@))
    &&& text_of(u.last_name) == given(row.shown("last_name"@))
    &&& text_of(u.email) == given(row.shown("email"@))
    &&& text_of(u.employee_number) == given(row.shown("employee_number"@))
    &&& u.active == field_truth(row, "active"@)
    &&& text_of(u.department) == given(row.shown("department"@))
    &&& text_of(u.location) == given(row.shown("location"@))
    &&& text_of(u.title) == given(row.shown("title"@))
    &&& u.display@ == display_of(
        row.shown("name"@),
        row.shown("user_name"@),
        row.shown("email"@),
        row.sys_id,
    )
}

/// The user that a row shows.
pub fn user_record_from_record(row: &Row) -> (r: UserRecord)
    ensures
        is_user_of(r, row@),
{
    UserRecord {
        sys_id: row.sys_id.clone(),
        table: "sys_user".to_owned(),
        user_name: given_text(row.get_str("user_name")),
        name: given_text(row.get_str("name")),
        first_name: given_text(row.get_str("first_name")),
        last_name: given_text(row.get_str("last_name")),
        email: given_text(row.get_str("email")),
        employee_number: given_text(row.get_str("employee_number")),
        active: bool_field(row, "active"),
        department: given_text(row.get_str("department")),
        location: given_text(row.get_str("location")),
        title: given_text(row.get_str("title")),
        display: display_text(
            row.get_str("name"),
            row.get_str("user_name"),
            row.get_str("email"),
            row.sys_id.as_str(),
        ),
    }
}

// --- the cache ---

/// A user in the cache.
#[derive(Debug, Clone, PartialEq, Eq)]
pub struct CachedUserRow {
    pub sys_id: String,
    pub user_name: Option<String>,
    pub name: Option<String>,
    pub first_name: Option<String>,
    pub last_name: Option<String>,
    pub email: Option<String>,
    pub employee_number: Option<String>,
    pub active: Option<bool>,
    pub department: Option<String>,
    pub location: Option<String>,
    pub title: Option<String>,
    /// The row that the provider gave, as JSON.
    pub raw_json: String,
    pub synced_at: Moment,
    pub sys_updated_on: Option<String>,
}

/// Whether a user is the one in the cache.
pub open spec fn is_cached_user(u: UserRecord, row: CachedUserRow) -> bool {
    &&& u.sys_id == row.sys_id
    &&& u.table@ == "sys_user"@
    &&& u.user_name == row.user_name
    &&& u.name == row.name
    &&& u.first_name == row.first_name
    &&& u.last_name == row.last_name
    &&& u.email == row.email
    &&& u.employee_number == row.employee_number
    &&& u.active == row.active
    &&& u.department == row.department
    &&& u.location == row.location
    &&& u.title == row.title
    &&& u.display@ == display_of(
        text_of(row.name),
        text_of(row.user_name),
        text_of(row.email),
        row.sys_id@,
    )
}

pub fn user_record_from_cached_row(row: &CachedUserRow) -> (r: UserRecord)
    ensures
        is_cached_user(r, *row),
{
    UserRecord {
        sys_id: row.sys_id.clone(),
        table: "sys_user".to_owned(),
        user_name: copy_text(&row.user_name),
        name: copy_text(&row.name),
        first_name: copy_text(&row.first_name),
        last_name: copy_text(&row.last_name),
        email: copy_text(&row.email),
        employee_number: copy_text(&row.employee_number),
        active: row.active,
        department: copy_text(&row.department),
        location: copy_text(&row.location),
        title: copy_text(&row.title),
        display: display_text(
            borrowed(&row.name),
            borrowed(&row.user_name),
            borrowed(&row.email),
            row.sys_id.as_str(),
        ),
    }
}

/// Whether a cached user is what is kept of a row.
pub open spec fn is_cached_row_of(c: CachedUserRow, row: RowView) -> bool {
    &&& c.sys_id@ == row.sys_id
    &&& text_of(c.user_name) == given(row.shown("user_name"@))
    &&& text_of(c.name) == given(row.shown("name"@))
    &&& text_of(c.first_name) == given(row.shown("first_name"@))
    &&& text_of(c.last_name) == given(row.shown("last_name"@))
    &&& text_of(c.email) == given(row.shown("email"@))
    &&& text_of(c.employee_number) == given(row.shown("employee_number"@))
    &&& c.active == field_truth(row, "active"@)
    &&& text_of(c.department) == given(row.shown("department"@))
    &&& text_of(c.location) == given(row.shown("location"@))
    &&& text_of(c.title) == given(row.shown("title"@))
    &&& text_of(c.sys_updated_on) == (match row.raw("sys_updated_on"@) {
        Some(t) => Some(t),
        None => row.shown("sys_updated_on"@),
    })
}

/// What is kept of a row in the cache.
pub fn cached_user_row_from_record(row: &Row, raw_json: String, synced_at: Moment) -> (r:
    CachedUserRow)
    ensures
        is_cached_row_of(r, row@),
        r.raw_json == raw_json,
        r.synced_at == synced_at,
{
    let sys_updated_on: Option<String> = match row.get_raw("sys_updated_on") {
        Some(t) => Some(t.to_owned()),
        None => match row.get_str("sys_updated_on") {
            Some(t) => Some(t.to_owned()),
            None => None,
        },
    };
    CachedUserRow {
        sys_id: row.sys_id.clone(),
        user_name: given_text(row.get_str("user_name")),
        name: given_text(row.get_str("name")),
        first_name: given_text(row.get_str("first_name")),
        last_name: given_text(row.get_str("last_name")),
        email: given_text(row.get_str("email")),
        employee_number: given_text(row.get_str("employee_number")),
        active: bool_field(row, "active"),
        department: given_text(row.get_str("department")),
        location: given_text(row.get_str("location")),
        title: given_text(row.get_str("title")),
        raw_json,
        synced_at,
        sys_updated_on,
    }
}

/// Two users with the same texts.
pub open spec fn same_user(a: UserRecord, b: UserRecord) -> bool {
    &&& a.sys_id@ == b.sys_id@
    &&& a.table@ == b.table@
    &&& text_of(a.user_name) == text_of(b.user_name)
    &&& text_of(a.name) == text_of(b.name)
    &&& text_of(a.first_name) == text_of(b.first_name)
    &&& text_of(a.last_name) == text_of(b.last_name)
    &&& text_of(a.email) == text_of(b.email)
    &&& text_of(a.employee_number) == text_of(b.employee_number)
    &&& a.active == b.active
    &&& text_of(a.department) == text_of(b.department)
    &&& text_of(a.location) == text_of(b.location)
    &&& text_of(a.title) == text_of(b.title)
    &&& a.display@ == b.display@
}

/// A user read back from the cache is the user that was found.
pub proof fn cached_users_read_back(
    row: RowView,
    found: UserRecord,
    kept: CachedUserRow,
    read: UserRecord,
)
    requires
        is_user_of(found, row),
        is_cached_row_of(kept, row),
        is_cached_user(read, kept),
    ensures
        same_user(read, found),
{
    lemma_given_twice(row.shown("name"@));
    lemma_given_twice(row.shown("user_name"@));
    lemma_given_twice(row.shown("email"@));
}

proof fn lemma_given_twice(o: Option<Seq<char>>)
    ensures
        given(given(o)) == given(o),
{
    if let Some(s) = o {
        crate::text::lemma_trim_idempotent(s);
    }
}

/// Whether what was read at one time still counts at another: no more than
/// `ttl_seconds` have passed.
pub open spec fn is_fresh(synced_at: Moment, now: Moment, ttl_seconds: i64) -> bool {
    now.value() - synced_at.value() <= ttl_seconds * 1_000_000_000
}

pub fn stable_reference_cache_is_fresh(synced_at: Moment, now: Moment, ttl_seconds: i64) -> (r: bool)
    ensures
        r == is_fresh(synced_at, now, ttl_seconds),
{
    let from: i128 = (synced_at.seconds as i128) * 1_000_000_000 + synced_at.nanos as i128;
    let to: i128 = (now.seconds as i128) * 1_000_000_000 + now.nanos as i128;
    to - from <= (ttl_seconds as i128) * 1_000_000_000
}

/// Whether the cached users still stand for the result of a query: each id has
/// its user, and each is fresh.
pub open spec fn cache_answers(ids: nat, rows: Seq<CachedUserRow>, now: Moment, ttl: i64) -> bool {
    ids == 0 || (rows.len() == ids && forall|i: int|
        0 <= i < rows.len() ==> is_fresh((#[trigger] rows[i]).synced_at, now, ttl))
}

/// The users that the cache has for a query whose result was these ids: nothing
/// where the provider is to be asked.
pub fn cached_users(
    result_sys_ids: &Vec<String>,
    rows: &Vec<CachedUserRow>,
    now: Moment,
    ttl_seconds: i64,
) -> (r: Option<Vec<UserRecord>>)
    ensures
        match r {
            Some(users) => {
                &&& cache_answers(result_sys_ids@.len(), rows@, now, ttl_seconds)
                &&& result_sys_ids@.len() == 0 ==> users@.len() == 0
                &&& result_sys_ids@.len() > 0 ==> users@.len() == rows@.len() && forall|i: int|
                    0 <= i < users@.len() ==> is_cached_user(#[trigger] users@[i], rows@[i])
            },
            None => !cache_answers(result_sys_ids@.len(), rows@, now, ttl_seconds),
        },
{
    if result_sys_ids.len() == 0 {
        return Some(Vec::new());
    }
    if rows.len() != result_sys_ids.len() {
        return None;
    }
    let mut users: Vec<UserRecord> = Vec::new();
    let mut i: usize = 0;
    while i < rows.len()
        invariant
            i <= rows@.len(),
            result_sys_ids@.len() > 0,
            users@.len() == i,
            forall|k: int| 0 <= k < i ==> is_cached_user(#[trigger] users@[k], rows@[k]),
            forall|k: int|
                0 <= k < i ==> is_fresh((#[trigger] rows@[k]).synced_at, now, ttl_seconds),
        decreases rows@.len() - i,
    {
        if !stable_reference_cache_is_fresh(rows[i].synced_at, now, ttl_seconds) {
            assert(!is_fresh(rows@[i as int].synced_at, now, ttl_seconds));
            return None;
        }
        users.push(user_record_from_cached_row(&rows[i]));
        i += 1;
    }
    Some(users)
}

/// A value in a key of the cache: trimmed, in small letters.
pub fn cache_key_value(value: &str) -> (r: String)
    ensures
        r@ == tag_of(value@),
{
    let trimmed: String = trim_text(value);
    lower_text(trimmed.as_str())
}

pub open spec fn lookup_key(field: Seq<char>, value: Seq<char>, active: bool) -> Seq<char> {
    "lookup|active="@ + active_text(active) + "|"@ + field + "="@ + tag_of(value)
}

/// The key of a lookup in the cache.
pub fn user_lookup_cache_key(field: &str, value: &str, active: bool) -> (r: String)
    ensures
        r@ == lookup_key(field@, value@, active),
{
    let mut out: String = "lookup|active=".to_owned();
    out.append(active_value(active));
    out.append("|");
    out.append(field);
    out.append("=");
    out.append(cache_key_value(value).as_str());
    out
}

/// The part of a key for one field, where it is given.
pub open spec fn key_part(name: Seq<char>, value: Option<Seq<char>>) -> Seq<Seq<char>> {
    match given(value) {
        Some(v) => seq![name + tag_of(v)],
        None => Seq::empty(),
    }
}

pub open spec fn search_key(search: UserSearch) -> Seq<char> {
    let active = match search.active {
        Some(a) => a,
        None => true,
    };
    let parts = seq!["active="@ + active_text(active)] + key_part(
        "first_name="@,
        text_of(search.first_name),
    ) + key_part("last_name="@, text_of(search.last_name)) + key_part(
        "name_contains="@,
        text_of(search.name_contains),
    ) + key_part("email_contains="@, text_of(search.email_contains)) + seq![
        "limit="@ + decimal(search_limit(search.limit) as nat),
    ];
    "search|"@ + joined_with(parts, "|"@)
}

fn push_part(parts: &mut Vec<String>, name: &str, value: &Option<String>)
    ensures
        texts(final(parts)@) == texts(old(parts)@) + key_part(name@, text_of(*value)),
{
    let ghost before = texts(parts@);
    match given_text(borrowed(value)) {
        Some(v) => {
            let part: String = joined(name, cache_key_value(v.as_str()).as_str());
            proof {
                lemma_texts_push(parts@, part);
            }
            parts.push(part);
            assert(texts(parts@) =~= before + key_part(name@, text_of(*value)));
        },
        None => {
            assert(texts(parts@) =~= before + key_part(name@, text_of(*value)));
        },
    }
}

/// The key of a search in the cache, or what is wrong with the search.
pub fn user_search_cache_key(search: &UserSearch) -> (r: Result<String, String>)
    ensures
        match r {
            Ok(key) => search_fault(*search) is None && key@ == search_key(*search),
            Err(e) => search_fault(*search) == Some(e@),
        },
{
    match search.validate() {
        Ok(_) => {},
        Err(e) => {
            return Err(e);
        },
    }
    let limit: usize = match search.validated_limit() {
        Ok(n) => n,
        Err(e) => {
            return Err(e);
        },
    };
    let active: bool = match search.active {
        Some(a) => a,
        None => true,
    };
    let mut parts: Vec<String> = Vec::new();
    let first: String = joined("active=", active_value(active));
    proof {
        crate::text::lemma_texts_empty();
        lemma_texts_push(parts@, first);
    }
    parts.push(first);
    assert(texts(parts@) =~= seq![first@]);
    push_part(&mut parts, "first_name=", &search.first_name);
    push_part(&mut parts, "last_name=", &search.last_name);
    push_part(&mut parts, "name_contains=", &search.name_contains);
    push_part(&mut parts, "email_contains=", &search.email_contains);
    let last: String = joined("limit=", decimal_text(limit as u64).as_str());
    let ghost before = texts(parts@);
    proof {
        lemma_texts_push(parts@, last);
    }
    parts.push(last);
    assert(texts(parts@) =~= before + seq![last@]);
    let text: String = join_texts(&parts, "|");
    Ok(joined("search|", text.as_str()))
}

/// Two lookups that differ only in the case of the value, or in blanks around
/// it, share a place in the cache.
pub proof fn lookup_keys_ignore_case(field: Seq<char>, a: Seq<char>, b: Seq<char>, active: bool)
    requires
        tag_of(a) == tag_of(b),
    ensures
        lookup_key(field, a, active) == lookup_key(field, b, active),
{
}

// --- how a lookup goes on ---

/// What the users found for a candidate mean.
#[derive(Debug, Clone, PartialEq, Eq)]
pub enum UserStep {
    /// Nobody was found: the next candidate is tried.
    Next,
    /// The lookup ends with one user.
    Found(UserLookupResult),
    /// The lookup ends: more than one user was found.
    Failed(String),
}

pub open spec fn too_many(c: CandidateView, cached: bool) -> Seq<char> {
    (if cached {
        "multiple cached sys_user records matched "@
    } else {
        "multiple sys_user records matched "@
    }) + c.field + "="@ + c.value
}

/// Judges the users found for a candidate, in the cache or by the provider.
pub fn judge_users(c: &UserLookupCandidate, users: Vec<UserRecord>, cached: bool) -> (r: UserStep)
    ensures
        match r {
            UserStep::Next => users@.len() == 0,
            UserStep::Found(result) => users@.len() == 1 && result.user == users@[0]
                && result.matched_by@ == c@.field,
            UserStep::Failed(e) => users@.len() > 1 && e@ == too_many(c@, cached),
        },
{
    let mut list: Vec<UserRecord> = users;
    if list.len() == 0 {
        return UserStep::Next;
    }
    if list.len() > 1 {
        let mut e: String = if cached {
            "multiple cached sys_user records matched ".to_owned()
        } else {
            "multiple sys_user records matched ".to_owned()
        };
        e.append(c.field);
        e.append("=");
        e.append(c.value.as_str());
        return UserStep::Failed(e);
    }
    let user: UserRecord = list.remove(0);
    UserStep::Found(UserLookupResult { matched_by: c.field.to_owned(), user })
}

} // verus!
