//! Incidents: what a read accepts, the query that it becomes, and the page that
//! comes back.
use vstd::prelude::*;
use vstd::string::*;

use crate::choices::{
    choice_views, copy_choices, meant, pick_choice, FieldChoice, FieldChoiceView, Pick,
    ResolvedIncidentState,
};
use crate::listing::{lemma_pass_done, lemma_pass_step, lemma_pass_stopped, pass};
use crate::number::chosen;
use crate::query::{DisplayMode, Operator, Query, QueryView};
use crate::record_name_resolver::lemma_push_distinct;
use crate::row::{row_views, Failure, Page, Row};
use crate::tables::{bad_sys_id, normalize_record_lookup_sys_id, sys_id_of};
use crate::text::{
    chars_of, decimal, decimal_text, has_prefix, is_digit, joined, joined3, less_text, list_has,
    starts_with_text, text_less, text_of, texts, trim, trim_text, upper, upper_text,
};
use crate::timestamp::{parse_timestamp, timestamp_of};
use crate::work::{keep_open, marks, open_rows, page_mark, PageMark};

verus! {

/// Why an incident was not read.
#[derive(Debug)]
pub enum IncidentReadError {
    InvalidParams(String),
    StateUnresolved {
        requested: String,
        ambiguous: bool,
        unavailable: bool,
        choices: Vec<FieldChoice>,
    },
    NotFound,
    LookupUnavailable,
    NumberAmbiguous,
    AclDenied,
    ServiceNowUnavailable,
    ServiceNowError,
}

/// The error says that the parameters are invalid, with this message.
pub open spec fn is_invalid(e: IncidentReadError, message: Seq<char>) -> bool {
    e matches IncidentReadError::InvalidParams(m) && m@ == message
}

fn refuse(message: &str) -> (e: IncidentReadError)
    ensures
        is_invalid(e, message@),
{
    IncidentReadError::InvalidParams(message.to_owned())
}

// --- selectors ---

/// `INC` and at least one digit.
pub open spec fn is_incident_number(n: Seq<char>) -> bool {
    n.len() > 3 && has_prefix(n, "INC"@) && forall|i: int|
        3 <= i < n.len() ==> is_digit(#[trigger] n[i])
}

pub open spec fn incident_number_of(s: Seq<char>) -> Option<Seq<char>> {
    if is_incident_number(upper(trim(s))) {
        Some(upper(trim(s)))
    } else {
        None
    }
}

pub open spec fn bad_number() -> Seq<char> {
    "number must match ^INC[0-9]+$"@
}

fn incident_number(value: &str) -> (r: Result<String, IncidentReadError>)
    ensures
        match r {
            Ok(n) => incident_number_of(value@) == Some(n@),
            Err(e) => incident_number_of(value@) is None && is_invalid(e, bad_number()),
        },
{
    let trimmed: String = trim_text(value);
    let number: String = upper_text(trimmed.as_str());
    let v: Vec<char> = chars_of(number.as_str());
    if v.len() <= 3 || !starts_with_text(number.as_str(), "INC") {
        return Err(refuse("number must match ^INC[0-9]+$"));
    }
    let mut i: usize = 3;
    while i < v.len()
        invariant
            3 <= i <= v@.len(),
            v@ == number@,
            number@ == upper(trim(value@)),
            forall|j: int| 3 <= j < i ==> is_digit(#[trigger] v@[j]),
        decreases v@.len() - i,
    {
        if !('0' <= v[i] && v[i] <= '9') {
            assert(!is_digit(v@[i as int]));
            return Err(refuse("number must match ^INC[0-9]+$"));
        }
        i += 1;
    }
    Ok(number)
}

/// Which incident to read.
pub struct IncidentGetInput {
    pub number: Option<String>,
    pub sys_id: Option<String>,
}

/// The selector of one incident, in its usual spelling.
pub enum IncidentSelector {
    Number(String),
    SysId(String),
}

/// Reads the selector of one incident: a number or a sys_id, and not both.
pub fn validate_incident_get_input(input: IncidentGetInput) -> (r: Result<
    IncidentSelector,
    IncidentReadError,
>)
    ensures
        match (input.number, input.sys_id) {
            (Some(number), None) => match incident_number_of(number@) {
                Some(n) => r matches Ok(IncidentSelector::Number(s)) && s@ == n,
                None => r is Err && is_invalid(r->Err_0, bad_number()),
            },
            (None, Some(sys_id)) => match sys_id_of(sys_id@) {
                Some(id) => r matches Ok(IncidentSelector::SysId(s)) && s@ == id,
                None => r is Err && is_invalid(r->Err_0, bad_sys_id()),
            },
            _ => r is Err && is_invalid(
                r->Err_0,
                "exactly one of number or sys_id is required"@,
            ),
        },
{
    match (input.number, input.sys_id) {
        (Some(number), None) => match incident_number(number.as_str()) {
            Ok(n) => Ok(IncidentSelector::Number(n)),
            Err(e) => Err(e),
        },
        (None, Some(sys_id)) => match normalize_record_lookup_sys_id(sys_id.as_str()) {
            Ok(id) => Ok(IncidentSelector::SysId(id)),
            Err(m) => Err(IncidentReadError::InvalidParams(m)),
        },
        _ => Err(refuse("exactly one of number or sys_id is required")),
    }
}

// --- lists of values ---

/// Takes one more number: it must be one, and a new one.
pub open spec fn number_step() -> spec_fn(Seq<Seq<char>>, Seq<char>) -> Result<
    Seq<Seq<char>>,
    Seq<char>,
> {
    |taken: Seq<Seq<char>>, value: Seq<char>|
        match incident_number_of(value) {
            None => Err(bad_number()),
            Some(n) => if taken.contains(n) {
                Err("numbers must be unique after normalization"@)
            } else {
                Ok(taken.push(n))
            },
        }
}

pub open spec fn numbers_of(values: Seq<Seq<char>>) -> Result<Seq<Seq<char>>, Seq<char>> {
    if values.len() > 20 {
        Err("numbers accepts at most 20 values"@)
    } else {
        pass(values, Seq::empty(), number_step())
    }
}

/// Agreement of a list with a stated one; refusals are by message.
pub open spec fn list_result(
    r: Result<Vec<String>, IncidentReadError>,
    s: Result<Seq<Seq<char>>, Seq<char>>,
) -> bool {
    match r {
        Ok(v) => s == Ok::<Seq<Seq<char>>, Seq<char>>(texts(v@)),
        Err(e) => s is Err && is_invalid(e, s->Err_0),
    }
}

#[verifier::loop_isolation(false)]
pub fn normalize_incident_numbers(values: &Vec<String>) -> (r: Result<
    Vec<String>,
    IncidentReadError,
>)
    ensures
        list_result(r, numbers_of(texts(values@))),
{
    if values.len() > 20 {
        return Err(refuse("numbers accepts at most 20 values"));
    }
    let ghost all = texts(values@);
    let ghost none: Seq<Seq<char>> = Seq::empty();
    let mut taken: Vec<String> = Vec::new();
    let mut i: usize = 0;
    proof {
        lemma_pass_done(all, none, number_step());
        assert(texts(taken@) =~= none);
    }
    while i < values.len()
        invariant
            i <= values@.len(),
            pass(all.subrange(0, i as int), none, number_step()) == Ok::<
                Seq<Seq<char>>,
                Seq<char>,
            >(texts(taken@)),
        decreases values@.len() - i,
    {
        proof {
            lemma_pass_step(all, none, number_step(), i as int);
        }
        let number: String = match incident_number(values[i].as_str()) {
            Ok(n) => n,
            Err(e) => {
                proof {
                    lemma_pass_stopped(all, none, number_step(), i + 1);
                }
                return Err(e);
            },
        };
        if list_has(&taken, number.as_str()) {
            proof {
                lemma_pass_stopped(all, none, number_step(), i + 1);
            }
            return Err(refuse("numbers must be unique after normalization"));
        }
        let ghost before = taken@;
        taken.push(number);
        assert(texts(taken@) =~= texts(before).push(number@));
        i += 1;
    }
    Ok(taken)
}

pub open spec fn too_many_values(field: Seq<char>, max: nat) -> Seq<char> {
    field + " accepts at most "@ + decimal(max) + " values"@
}

pub open spec fn repeated_value(field: Seq<char>) -> Seq<char> {
    field + " values must be non-empty and unique"@
}

/// Takes one more value: something, and something new.
pub open spec fn value_step(field: Seq<char>) -> spec_fn(Seq<Seq<char>>, Seq<char>) -> Result<
    Seq<Seq<char>>,
    Seq<char>,
> {
    |taken: Seq<Seq<char>>, value: Seq<char>|
        if trim(value).len() == 0 || taken.contains(trim(value)) {
            Err(repeated_value(field))
        } else {
            Ok(taken.push(trim(value)))
        }
}

pub open spec fn values_of(values: Seq<Seq<char>>, field: Seq<char>, max: nat) -> Result<
    Seq<Seq<char>>,
    Seq<char>,
> {
    if values.len() > max {
        Err(too_many_values(field, max))
    } else {
        pass(values, Seq::empty(), value_step(field))
    }
}

#[verifier::loop_isolation(false)]
pub fn normalize_unique_non_empty(values: &Vec<String>, field: &str, max: usize) -> (r: Result<
    Vec<String>,
    IncidentReadError,
>)
    ensures
        list_result(r, values_of(texts(values@), field@, max as nat)),
{
    if values.len() > max {
        let number: String = decimal_text(max as u64);
        let mut message: String = joined3(field, " accepts at most ", number.as_str());
        message.append(" values");
        return Err(IncidentReadError::InvalidParams(message));
    }
    let ghost all = texts(values@);
    let ghost none: Seq<Seq<char>> = Seq::empty();
    let ghost step = value_step(field@);
    let mut taken: Vec<String> = Vec::new();
    let mut i: usize = 0;
    proof {
        lemma_pass_done(all, none, step);
        assert(texts(taken@) =~= none);
    }
    while i < values.len()
        invariant
            i <= values@.len(),
            pass(all.subrange(0, i as int), none, step) == Ok::<Seq<Seq<char>>, Seq<char>>(
                texts(taken@),
            ),
        decreases values@.len() - i,
    {
        proof {
            lemma_pass_step(all, none, step, i as int);
        }
        let value: String = trim_text(values[i].as_str());
        if value.as_str().is_empty() || list_has(&taken, value.as_str()) {
            proof {
                lemma_pass_stopped(all, none, step, i + 1);
            }
            return Err(
                IncidentReadError::InvalidParams(
                    joined(field, " values must be non-empty and unique"),
                ),
            );
        }
        let ghost before = taken@;
        taken.push(value);
        assert(texts(taken@) =~= texts(before).push(value@));
        i += 1;
    }
    Ok(taken)
}

pub open spec fn bad_priorities() -> Seq<char> {
    "priorities must contain unique integers from 1 through 5"@
}

/// Takes one more priority: from one to five, and a new one.
pub open spec fn priority_step() -> spec_fn(Seq<u8>, u8) -> Result<Seq<u8>, Seq<char>> {
    |taken: Seq<u8>, value: u8|
        if !(1 <= value <= 5) || taken.contains(value) {
            Err(bad_priorities())
        } else {
            Ok(taken.push(value))
        }
}

pub open spec fn priorities_of(values: Seq<u8>) -> Result<Seq<Seq<char>>, Seq<char>> {
    if values.len() > 5 {
        Err("priorities accepts at most 5 values"@)
    } else {
        match pass(values, Seq::<u8>::empty(), priority_step()) {
            Err(e) => Err(e),
            Ok(taken) => Ok(taken.map_values(|p: u8| decimal(p as nat))),
        }
    }
}

#[verifier::loop_isolation(false)]
pub fn normalize_priorities(values: &Vec<u8>) -> (r: Result<Vec<String>, IncidentReadError>)
    ensures
        list_result(r, priorities_of(values@)),
{
    if values.len() > 5 {
        return Err(refuse("priorities accepts at most 5 values"));
    }
    let ghost all = values@;
    let ghost none: Seq<u8> = Seq::empty();
    let mut taken: Vec<u8> = Vec::new();
    let mut out: Vec<String> = Vec::new();
    let mut i: usize = 0;
    proof {
        lemma_pass_done(all, none, priority_step());
    }
    while i < values.len()
        invariant
            i <= values@.len(),
            pass(all.subrange(0, i as int), none, priority_step()) == Ok::<Seq<u8>, Seq<char>>(
                taken@,
            ),
            out@.len() == taken@.len(),
            forall|j: int| 0 <= j < out@.len() ==> (#[trigger] out@[j])@ == decimal(taken@[j] as nat),
        decreases values@.len() - i,
    {
        proof {
            lemma_pass_step(all, none, priority_step(), i as int);
        }
        let value: u8 = values[i];
        if !(1 <= value && value <= 5) || has_priority(&taken, value) {
            proof {
                lemma_pass_stopped(all, none, priority_step(), i + 1);
            }
            return Err(refuse("priorities must contain unique integers from 1 through 5"));
        }
        taken.push(value);
        out.push(decimal_text(value as u64));
        i += 1;
    }
    assert(texts(out@) =~= taken@.map_values(|p: u8| decimal(p as nat)));
    Ok(out)
}

fn has_priority(taken: &Vec<u8>, value: u8) -> (r: bool)
    ensures
        r == taken@.contains(value),
{
    let mut i: usize = 0;
    while i < taken.len()
        invariant
            i <= taken@.len(),
            forall|j: int| 0 <= j < i ==> taken@[j] != value,
        decreases taken@.len() - i,
    {
        if taken[i] == value {
            return true;
        }
        i += 1;
    }
    false
}

// --- single values ---

pub open spec fn bad_sys_id_field(field: Seq<char>) -> Seq<char> {
    field + " must be a 32-hex sys_id"@
}

/// An optional sys_id in its usual spelling.
pub open spec fn optional_sys_id(value: Option<Seq<char>>, field: Seq<char>) -> Result<
    Option<Seq<char>>,
    Seq<char>,
> {
    match value {
        None => Ok(None),
        Some(v) => match sys_id_of(v) {
            Some(id) => Ok(Some(id)),
            None => Err(bad_sys_id_field(field)),
        },
    }
}

/// Agreement of an optional text with a stated one.
pub open spec fn option_result(
    r: Result<Option<String>, IncidentReadError>,
    s: Result<Option<Seq<char>>, Seq<char>>,
) -> bool {
    match r {
        Ok(v) => s == Ok::<Option<Seq<char>>, Seq<char>>(text_of(v)),
        Err(e) => s is Err && is_invalid(e, s->Err_0),
    }
}

pub fn normalize_optional_sys_id(value: &Option<String>, field: &str) -> (r: Result<
    Option<String>,
    IncidentReadError,
>)
    ensures
        option_result(r, optional_sys_id(text_of(*value), field@)),
{
    match value {
        None => Ok(None),
        Some(v) => match normalize_record_lookup_sys_id(v.as_str()) {
            Ok(id) => Ok(Some(id)),
            Err(_) => Err(
                IncidentReadError::InvalidParams(joined(field, " must be a 32-hex sys_id")),
            ),
        },
    }
}

/// An optional point in time, which must be written in the usual way.
pub open spec fn optional_timestamp(value: Option<Seq<char>>, field: Seq<char>) -> Result<
    Option<Seq<char>>,
    Seq<char>,
> {
    if value is Some && timestamp_of(value->0) is None {
        Err(field + " must use YYYY-MM-DD HH:MM:SS"@)
    } else {
        Ok(value)
    }
}

pub fn validate_incident_timestamp(value: &Option<String>, field: &str) -> (r: Result<
    Option<String>,
    IncidentReadError,
>)
    ensures
        option_result(r, optional_timestamp(text_of(*value), field@)),
{
    match value {
        None => Ok(None),
        Some(v) => if parse_timestamp(v.as_str()).is_some() {
            Ok(Some(v.clone()))
        } else {
            Err(
                IncidentReadError::InvalidParams(joined(field, " must use YYYY-MM-DD HH:MM:SS")),
            )
        },
    }
}

/// A range of time must not be empty.
pub open spec fn range_failure(
    after: Option<Seq<char>>,
    before: Option<Seq<char>>,
    field: Seq<char>,
) -> Option<Seq<char>> {
    if after is Some && before is Some && !text_less(after->0, before->0) {
        Some(field + "_after must be earlier than "@ + field + "_before"@)
    } else {
        None
    }
}

pub fn validate_time_range(after: &Option<String>, before: &Option<String>, field: &str) -> (r:
    Result<(), IncidentReadError>)
    ensures
        match range_failure(text_of(*after), text_of(*before), field@) {
            Some(m) => r is Err && is_invalid(r->Err_0, m),
            None => r is Ok,
        },
{
    if let Some(a) = after {
        if let Some(b) = before {
            if !less_text(a.as_str(), b.as_str()) {
                let mut message: String = joined3(field, "_after must be earlier than ", field);
                message.append("_before");
                return Err(IncidentReadError::InvalidParams(message));
            }
        }
    }
    Ok(())
}

// --- queries ---

/// What incidents are asked for.
pub struct IncidentQueryFilters {
    pub numbers: Option<Vec<String>>,
    pub assignment_group: Option<String>,
    pub assigned_to: Option<String>,
    pub caller_id: Option<String>,
    pub cmdb_ci: Option<String>,
    pub states: Option<Vec<String>>,
    pub priorities: Option<Vec<u8>>,
    pub active: Option<bool>,
    pub opened_after: Option<String>,
    pub opened_before: Option<String>,
    pub updated_after: Option<String>,
    pub updated_before: Option<String>,
}

pub struct IncidentQueryInput {
    pub filters: IncidentQueryFilters,
    pub limit: Option<usize>,
    pub cursor: Option<String>,
}

/// How many incidents a page holds, unless asked otherwise, and at most.
pub struct PageLimits {
    pub default_limit: usize,
    pub max_limit: usize,
}

/// A query that was accepted, with every value in its usual spelling.
pub struct ValidatedIncidentQuery {
    pub numbers: Vec<String>,
    pub assignment_group: Option<String>,
    pub assigned_to: Option<String>,
    pub caller_id: Option<String>,
    pub cmdb_ci: Option<String>,
    pub states: Vec<String>,
    pub priorities: Vec<String>,
    pub active: Option<bool>,
    pub opened_after: Option<String>,
    pub opened_before: Option<String>,
    pub updated_after: Option<String>,
    pub updated_before: Option<String>,
    pub limit: usize,
    pub cursor: Option<String>,
}

pub open spec fn given_numbers(values: Option<Vec<String>>) -> Result<Seq<Seq<char>>, Seq<char>> {
    match values {
        None => Ok(Seq::empty()),
        Some(v) => if v@.len() == 0 {
            Err("numbers must contain at least one value"@)
        } else {
            numbers_of(texts(v@))
        },
    }
}

pub open spec fn given_states(values: Option<Vec<String>>) -> Result<Seq<Seq<char>>, Seq<char>> {
    match values {
        None => Ok(Seq::empty()),
        Some(v) => if v@.len() == 0 {
            Err("states must contain at least one value"@)
        } else {
            values_of(texts(v@), "states"@, 20)
        },
    }
}

pub open spec fn given_priorities(values: Option<Vec<u8>>) -> Result<Seq<Seq<char>>, Seq<char>> {
    match values {
        None => Ok(Seq::empty()),
        Some(v) => if v@.len() == 0 {
            Err("priorities must contain at least one value"@)
        } else {
            priorities_of(v@)
        },
    }
}

fn read_numbers(values: &Option<Vec<String>>) -> (r: Result<Vec<String>, IncidentReadError>)
    ensures
        list_result(r, given_numbers(*values)),
{
    match values {
        None => {
            let v: Vec<String> = Vec::new();
            assert(texts(v@) =~= Seq::empty());
            Ok(v)
        },
        Some(v) => if v.is_empty() {
            Err(refuse("numbers must contain at least one value"))
        } else {
            normalize_incident_numbers(v)
        },
    }
}

fn read_states(values: &Option<Vec<String>>) -> (r: Result<Vec<String>, IncidentReadError>)
    ensures
        list_result(r, given_states(*values)),
{
    match values {
        None => {
            let v: Vec<String> = Vec::new();
            assert(texts(v@) =~= Seq::empty());
            Ok(v)
        },
        Some(v) => if v.is_empty() {
            Err(refuse("states must contain at least one value"))
        } else {
            normalize_unique_non_empty(v, "states", 20)
        },
    }
}

fn read_priorities(values: &Option<Vec<u8>>) -> (r: Result<Vec<String>, IncidentReadError>)
    ensures
        list_result(r, given_priorities(*values)),
{
    match values {
        None => {
            let v: Vec<String> = Vec::new();
            assert(texts(v@) =~= Seq::empty());
            Ok(v)
        },
        Some(v) => if v.is_empty() {
            Err(refuse("priorities must contain at least one value"))
        } else {
            normalize_priorities(v)
        },
    }
}

pub open spec fn chosen_limit(limit: Option<usize>, limits: PageLimits) -> usize {
    chosen(limit, limits.default_limit)
}

pub open spec fn limit_failure(limit: usize, max: usize) -> Option<Seq<char>> {
    if 1 <= limit <= max {
        None
    } else {
        Some("limit must be between 1 and "@ + decimal(max as nat))
    }
}

pub open spec fn cursor_of(cursor: Option<Seq<char>>) -> Result<Option<Seq<char>>, Seq<char>> {
    match cursor {
        None => Ok(None),
        Some(c) => match sys_id_of(c) {
            Some(id) => Ok(Some(id)),
            None => Err(bad_sys_id()),
        },
    }
}

/// Why a query is refused, the first reason first.
pub open spec fn query_refusal(input: IncidentQueryInput, limits: PageLimits) -> Option<Seq<char>> {
    let f = input.filters;
    let opened_after = text_of(f.opened_after);
    let opened_before = text_of(f.opened_before);
    let updated_after = text_of(f.updated_after);
    let updated_before = text_of(f.updated_before);
    if given_numbers(f.numbers) is Err {
        Some(given_numbers(f.numbers)->Err_0)
    } else if given_states(f.states) is Err {
        Some(given_states(f.states)->Err_0)
    } else if given_priorities(f.priorities) is Err {
        Some(given_priorities(f.priorities)->Err_0)
    } else if optional_sys_id(text_of(f.assignment_group), "assignment_group"@) is Err {
        Some(bad_sys_id_field("assignment_group"@))
    } else if optional_sys_id(text_of(f.assigned_to), "assigned_to"@) is Err {
        Some(bad_sys_id_field("assigned_to"@))
    } else if optional_sys_id(text_of(f.caller_id), "caller_id"@) is Err {
        Some(bad_sys_id_field("caller_id"@))
    } else if optional_sys_id(text_of(f.cmdb_ci), "cmdb_ci"@) is Err {
        Some(bad_sys_id_field("cmdb_ci"@))
    } else if optional_timestamp(opened_after, "opened_after"@) is Err {
        Some(optional_timestamp(opened_after, "opened_after"@)->Err_0)
    } else if optional_timestamp(opened_before, "opened_before"@) is Err {
        Some(optional_timestamp(opened_before, "opened_before"@)->Err_0)
    } else if optional_timestamp(updated_after, "updated_after"@) is Err {
        Some(optional_timestamp(updated_after, "updated_after"@)->Err_0)
    } else if optional_timestamp(updated_before, "updated_before"@) is Err {
        Some(optional_timestamp(updated_before, "updated_before"@)->Err_0)
    } else if range_failure(opened_after, opened_before, "opened"@) is Some {
        range_failure(opened_after, opened_before, "opened"@)
    } else if range_failure(updated_after, updated_before, "updated"@) is Some {
        range_failure(updated_after, updated_before, "updated"@)
    } else if limit_failure(chosen_limit(input.limit, limits), limits.max_limit) is Some {
        limit_failure(chosen_limit(input.limit, limits), limits.max_limit)
    } else if cursor_of(text_of(input.cursor)) is Err {
        Some(bad_sys_id())
    } else {
        None
    }
}

/// The query that an accepted input becomes.
pub open spec fn is_validated(
    q: ValidatedIncidentQuery,
    input: IncidentQueryInput,
    limits: PageLimits,
) -> bool {
    let f = input.filters;
    &&& given_numbers(f.numbers) == Ok::<Seq<Seq<char>>, Seq<char>>(texts(q.numbers@))
    &&& given_states(f.states) == Ok::<Seq<Seq<char>>, Seq<char>>(texts(q.states@))
    &&& given_priorities(f.priorities) == Ok::<Seq<Seq<char>>, Seq<char>>(texts(q.priorities@))
    &&& optional_sys_id(text_of(f.assignment_group), "assignment_group"@) == Ok::<
        Option<Seq<char>>,
        Seq<char>,
    >(text_of(q.assignment_group))
    &&& optional_sys_id(text_of(f.assigned_to), "assigned_to"@) == Ok::<
        Option<Seq<char>>,
        Seq<char>,
    >(text_of(q.assigned_to))
    &&& optional_sys_id(text_of(f.caller_id), "caller_id"@) == Ok::<Option<Seq<char>>, Seq<char>>(
        text_of(q.caller_id),
    )
    &&& optional_sys_id(text_of(f.cmdb_ci), "cmdb_ci"@) == Ok::<Option<Seq<char>>, Seq<char>>(
        text_of(q.cmdb_ci),
    )
    &&& q.active == f.active
    &&& text_of(q.opened_after) == text_of(f.opened_after)
    &&& text_of(q.opened_before) == text_of(f.opened_before)
    &&& text_of(q.updated_after) == text_of(f.updated_after)
    &&& text_of(q.updated_before) == text_of(f.updated_before)
    &&& q.limit == chosen_limit(input.limit, limits)
    &&& cursor_of(text_of(input.cursor)) == Ok::<Option<Seq<char>>, Seq<char>>(text_of(q.cursor))
}

/// Accepts a query or refuses it; nothing is asked of the provider before.
pub fn validate_incident_query_input(input: &IncidentQueryInput, limits: &PageLimits) -> (r: Result<
    ValidatedIncidentQuery,
    IncidentReadError,
>)
    ensures
        match query_refusal(*input, *limits) {
            Some(m) => r is Err && is_invalid(r->Err_0, m),
            None => r is Ok && is_validated(r->Ok_0, *input, *limits),
        },
{
    let f: &IncidentQueryFilters = &input.filters;
    let numbers: Vec<String> = match read_numbers(&f.numbers) {
        Ok(v) => v,
        Err(e) => return Err(e),
    };
    let states: Vec<String> = match read_states(&f.states) {
        Ok(v) => v,
        Err(e) => return Err(e),
    };
    let priorities: Vec<String> = match read_priorities(&f.priorities) {
        Ok(v) => v,
        Err(e) => return Err(e),
    };
    let assignment_group: Option<String> = match normalize_optional_sys_id(
        &f.assignment_group,
        "assignment_group",
    ) {
        Ok(v) => v,
        Err(e) => return Err(e),
    };
    let assigned_to: Option<String> = match normalize_optional_sys_id(
        &f.assigned_to,
        "assigned_to",
    ) {
        Ok(v) => v,
        Err(e) => return Err(e),
    };
    let caller_id: Option<String> = match normalize_optional_sys_id(&f.caller_id, "caller_id") {
        Ok(v) => v,
        Err(e) => return Err(e),
    };
    let cmdb_ci: Option<String> = match normalize_optional_sys_id(&f.cmdb_ci, "cmdb_ci") {
        Ok(v) => v,
        Err(e) => return Err(e),
    };
    let opened_after: Option<String> = match validate_incident_timestamp(
        &f.opened_after,
        "opened_after",
    ) {
        Ok(v) => v,
        Err(e) => return Err(e),
    };
    let opened_before: Option<String> = match validate_incident_timestamp(
        &f.opened_before,
        "opened_before",
    ) {
        Ok(v) => v,
        Err(e) => return Err(e),
    };
    let updated_after: Option<String> = match validate_incident_timestamp(
        &f.updated_after,
        "updated_after",
    ) {
        Ok(v) => v,
        Err(e) => return Err(e),
    };
    let updated_before: Option<String> = match validate_incident_timestamp(
        &f.updated_before,
        "updated_before",
    ) {
        Ok(v) => v,
        Err(e) => return Err(e),
    };
    if let Err(e) = validate_time_range(&opened_after, &opened_before, "opened") {
        return Err(e);
    }
    if let Err(e) = validate_time_range(&updated_after, &updated_before, "updated") {
        return Err(e);
    }
    let limit: usize = match input.limit {
        Some(n) => n,
        None => limits.default_limit,
    };
    if !(1 <= limit && limit <= limits.max_limit) {
        let max: String = decimal_text(limits.max_limit as u64);
        return Err(
            IncidentReadError::InvalidParams(joined("limit must be between 1 and ", max.as_str())),
        );
    }
    let cursor: Option<String> = match &input.cursor {
        None => None,
        Some(c) => match normalize_record_lookup_sys_id(c.as_str()) {
            Ok(id) => Some(id),
            Err(m) => return Err(IncidentReadError::InvalidParams(m)),
        },
    };
    Ok(
        ValidatedIncidentQuery {
            numbers,
            assignment_group,
            assigned_to,
            caller_id,
            cmdb_ci,
            states,
            priorities,
            active: f.active,
            opened_after,
            opened_before,
            updated_after,
            updated_before,
            limit,
            cursor,
        },
    )
}

/// An accepted list of numbers holds incident numbers, each once.
pub proof fn accepted_numbers_are_distinct(values: Seq<Seq<char>>)
    requires
        numbers_of(values) is Ok,
    ensures
        numbers_of(values)->Ok_0.no_duplicates(),
        numbers_of(values)->Ok_0.len() == values.len(),
        forall|i: int|
            0 <= i < values.len() ==> is_incident_number(#[trigger] numbers_of(values)->Ok_0[i]),
    decreases values.len(),
{
    if values.len() > 0 {
        let front = values.drop_last();
        accepted_numbers_are_distinct(front);
        let taken = numbers_of(front)->Ok_0;
        lemma_push_distinct(taken, incident_number_of(values.last())->0);
    }
}


// --- states ---

/// Why one of several states is not accepted.
pub struct StateRefusal {
    pub requested: Seq<char>,
    pub ambiguous: bool,
}

/// Takes one more state: the selector must mean exactly one choice, and one
/// that no selector before it meant.
pub open spec fn state_step(choices: Seq<FieldChoiceView>) -> spec_fn(
    Seq<Seq<char>>,
    Seq<char>,
) -> Result<Seq<Seq<char>>, StateRefusal> {
    |taken: Seq<Seq<char>>, selector: Seq<char>|
        {
            let hits = meant(choices, selector);
            if hits.len() != 1 {
                Err(StateRefusal { requested: selector, ambiguous: hits.len() > 1 })
            } else if taken.contains(hits[0].value) {
                Err(StateRefusal { requested: selector, ambiguous: true })
            } else {
                Ok(taken.push(hits[0].value))
            }
        }
}

pub open spec fn states_of(requested: Seq<Seq<char>>, choices: Seq<FieldChoiceView>) -> Result<
    Seq<Seq<char>>,
    StateRefusal,
> {
    pass(requested, Seq::empty(), state_step(choices))
}

fn unresolved(selector: &str, ambiguous: bool, choices: &Vec<FieldChoice>) -> (e: IncidentReadError)
    ensures
        e matches IncidentReadError::StateUnresolved {
            requested,
            ambiguous: a,
            unavailable,
            choices: c,
        } && requested@ == selector@ && a == ambiguous && !unavailable && c@ == choices@,
{
    IncidentReadError::StateUnresolved {
        requested: selector.to_owned(),
        ambiguous,
        unavailable: false,
        choices: copy_choices(choices),
    }
}

/// The raw values of the states that the selectors mean.
#[verifier::loop_isolation(false)]
pub fn resolve_incident_states(requested: &Vec<String>, choices: &Vec<FieldChoice>) -> (r: Result<
    Vec<String>,
    IncidentReadError,
>)
    ensures
        match states_of(texts(requested@), choice_views(choices@)) {
            Ok(values) => r is Ok && texts(r->Ok_0@) == values,
            Err(refusal) => r is Err && (r->Err_0 matches IncidentReadError::StateUnresolved {
                requested: selector,
                ambiguous,
                unavailable,
                choices: offered,
            } && selector@ == refusal.requested && ambiguous == refusal.ambiguous && !unavailable
                && offered@ == choices@),
        },
{
    let ghost all = texts(requested@);
    let ghost none: Seq<Seq<char>> = Seq::empty();
    let ghost step = state_step(choice_views(choices@));
    let mut taken: Vec<String> = Vec::new();
    let mut i: usize = 0;
    proof {
        lemma_pass_done(all, none, step);
        assert(texts(taken@) =~= none);
    }
    while i < requested.len()
        invariant
            i <= requested@.len(),
            pass(all.subrange(0, i as int), none, step) == Ok::<Seq<Seq<char>>, StateRefusal>(
                texts(taken@),
            ),
        decreases requested@.len() - i,
    {
        proof {
            lemma_pass_step(all, none, step, i as int);
            if pass(all.subrange(0, i + 1), none, step) is Err {
                lemma_pass_stopped(all, none, step, i + 1);
            }
        }
        let selector: &str = requested[i].as_str();
        match pick_choice(choices, selector) {
            Pick::One(k) => {
                if list_has(&taken, choices[k].value.as_str()) {
                    return Err(unresolved(selector, true, choices));
                }
                let ghost before = taken@;
                taken.push(choices[k].value.clone());
                assert(texts(taken@) =~= texts(before).push(choices@[k as int].value@));
            },
            Pick::Nothing => {
                return Err(unresolved(selector, false, choices));
            },
            Pick::Several => {
                return Err(unresolved(selector, true, choices));
            },
        }
        i += 1;
    }
    Ok(taken)
}

/// The states of a query, once the choices were read. States that were asked
/// for cannot be told without choices.
pub fn incident_query_states(
    q: &ValidatedIncidentQuery,
    choices: Option<Vec<FieldChoice>>,
) -> (r: Result<Vec<String>, IncidentReadError>)
    ensures
        if q.states@.len() == 0 {
            r is Ok && r->Ok_0@.len() == 0
        } else if choices is None || choices->0@.len() == 0 {
            r is Err && (r->Err_0 matches IncidentReadError::StateUnresolved {
                requested,
                ambiguous,
                unavailable,
                choices: offered,
            } && requested == q.states@[0] && !ambiguous && unavailable && offered@.len() == 0)
        } else {
            match states_of(texts(q.states@), choice_views(choices->0@)) {
                Ok(values) => r is Ok && texts(r->Ok_0@) == values,
                Err(refusal) => r is Err && (r->Err_0 matches IncidentReadError::StateUnresolved {
                    requested: selector,
                    ambiguous,
                    unavailable,
                    choices: offered,
                } && selector@ == refusal.requested && ambiguous == refusal.ambiguous
                    && !unavailable && offered@ == choices->0@),
            }
        },
{
    if q.states.is_empty() {
        return Ok(Vec::new());
    }
    let choices: Vec<FieldChoice> = match choices {
        Some(c) => c,
        None => Vec::new(),
    };
    if choices.is_empty() {
        return Err(
            IncidentReadError::StateUnresolved {
                requested: q.states[0].clone(),
                ambiguous: false,
                unavailable: true,
                choices,
            },
        );
    }
    resolve_incident_states(&q.states, &choices)
}

/// The table query that an accepted query becomes.
pub open spec fn incident_plan_of(
    q: ValidatedIncidentQuery,
    states: Seq<Seq<char>>,
    fields: Seq<Seq<char>>,
) -> QueryView {
    QueryView::of("incident"@).fields(fields).display(DisplayMode::Both).no_links().ascending(
        "sys_id"@,
    ).limit(q.limit as u32).in_given("number"@, texts(q.numbers@)).when_given(
        "assignment_group"@,
        Operator::Equals,
        text_of(q.assignment_group),
    ).when_given("assigned_to"@, Operator::Equals, text_of(q.assigned_to)).when_given(
        "caller_id"@,
        Operator::Equals,
        text_of(q.caller_id),
    ).when_given("cmdb_ci"@, Operator::Equals, text_of(q.cmdb_ci)).in_given(
        "state"@,
        states,
    ).in_given("priority"@, texts(q.priorities@)).flag("active"@, q.active).when_given(
        "opened_at"@,
        Operator::GreaterThan,
        text_of(q.opened_after),
    ).when_given("sys_updated_on"@, Operator::GreaterThan, text_of(q.updated_after)).when_given(
        "opened_at"@,
        Operator::LessThan,
        text_of(q.opened_before),
    ).when_given("sys_updated_on"@, Operator::LessThan, text_of(q.updated_before)).when_given(
        "sys_id"@,
        Operator::GreaterThan,
        text_of(q.cursor),
    )
}

pub fn incident_plan(q: &ValidatedIncidentQuery, states: &Vec<String>, fields: &Vec<String>) -> (p:
    Query)
    requires
        q.limit <= u32::MAX,
    ensures
        p@ == incident_plan_of(*q, texts(states@), texts(fields@)),
{
    Query::of("incident").fields(fields).display(DisplayMode::Both).no_links().ascending(
        "sys_id",
    ).limit(q.limit as u32).in_given("number", &q.numbers).when_given(
        "assignment_group",
        Operator::Equals,
        &q.assignment_group,
    ).when_given("assigned_to", Operator::Equals, &q.assigned_to).when_given(
        "caller_id",
        Operator::Equals,
        &q.caller_id,
    ).when_given("cmdb_ci", Operator::Equals, &q.cmdb_ci).in_given("state", states).in_given(
        "priority",
        &q.priorities,
    ).flag("active", q.active).when_given(
        "opened_at",
        Operator::GreaterThan,
        &q.opened_after,
    ).when_given("sys_updated_on", Operator::GreaterThan, &q.updated_after).when_given(
        "opened_at",
        Operator::LessThan,
        &q.opened_before,
    ).when_given("sys_updated_on", Operator::LessThan, &q.updated_before).when_given(
        "sys_id",
        Operator::GreaterThan,
        &q.cursor,
    )
}

/// How a failed request counts for an incident.
pub open spec fn is_denied(failure: Failure) -> bool {
    failure == Failure::Api(401) || failure == Failure::Api(403) || failure == Failure::Auth(
        Some(401),
    ) || failure == Failure::Auth(Some(403))
}

pub fn classify_incident_api_error(failure: Failure) -> (e: IncidentReadError)
    ensures
        if is_denied(failure) {
            e is AclDenied
        } else if failure is Http {
            e is ServiceNowUnavailable
        } else {
            e is ServiceNowError
        },
{
    match failure {
        Failure::Api(status) => if status == 401 || status == 403 {
            IncidentReadError::AclDenied
        } else {
            IncidentReadError::ServiceNowError
        },
        Failure::Auth(Some(status)) => if status == 401 || status == 403 {
            IncidentReadError::AclDenied
        } else {
            IncidentReadError::ServiceNowError
        },
        Failure::Http => IncidentReadError::ServiceNowUnavailable,
        _ => IncidentReadError::ServiceNowError,
    }
}

/// A page of incidents, and where it stands.
pub struct IncidentPage {
    pub rows: Vec<Row>,
    pub mark: PageMark,
    pub limit: usize,
}

/// The page that answers an incident query. It is complete or partial; a request
/// that failed is never an empty page.
pub fn incident_page(limit: usize, reply: Result<Page, Failure>) -> (r: Result<
    IncidentPage,
    IncidentReadError,
>)
    ensures
        match reply {
            Ok(page) => r is Ok && r->Ok_0.rows == page.rows && r->Ok_0.limit == limit && marks(
                r->Ok_0.mark,
                row_views(page.rows@),
                limit as int,
            ),
            Err(f) => r is Err && (if is_denied(f) {
                r->Err_0 is AclDenied
            } else if f is Http {
                r->Err_0 is ServiceNowUnavailable
            } else {
                r->Err_0 is ServiceNowError
            }),
        },
{
    match reply {
        Ok(page) => {
            let mark: PageMark = page_mark(&page.rows, limit);
            Ok(IncidentPage { rows: page.rows, mark, limit })
        },
        Err(f) => Err(classify_incident_api_error(f)),
    }
}

/// What a read of one incident by its sys_id brought.
pub fn incident_by_sys_id(reply: Result<Row, Failure>) -> (r: Result<Row, IncidentReadError>)
    ensures
        match reply {
            Ok(row) => r == Ok::<Row, IncidentReadError>(row),
            Err(Failure::Api(404)) => r is Err && r->Err_0 is NotFound,
            Err(f) => r is Err && (if is_denied(f) {
                r->Err_0 is AclDenied
            } else if f is Http {
                r->Err_0 is ServiceNowUnavailable
            } else {
                r->Err_0 is ServiceNowError
            }),
        },
{
    match reply {
        Ok(row) => Ok(row),
        Err(Failure::Api(404)) => Err(IncidentReadError::NotFound),
        Err(f) => Err(classify_incident_api_error(f)),
    }
}

/// The form that one incident is read in by its id.
pub fn incident_read_form() -> (q: Query)
    ensures
        q@ == QueryView::of("incident"@).display(DisplayMode::Both).no_links(),
{
    Query::of("incident").display(DisplayMode::Both).no_links()
}

pub open spec fn number_query_of(number: Seq<char>) -> QueryView {
    QueryView::of("incident"@).display(DisplayMode::Both).no_links().equals(
        "number"@,
        number,
    ).limit(2)
}

pub fn incident_number_query(number: &str) -> (q: Query)
    ensures
        q@ == number_query_of(number@),
{
    Query::of("incident").display(DisplayMode::Both).no_links().equals("number", number).limit(2)
}

/// What a read of one incident by its number brought: exactly one row is it.
pub fn incident_by_number(reply: Result<Page, Failure>) -> (r: Result<Row, IncidentReadError>)
    ensures
        match reply {
            Ok(page) => if page.rows@.len() == 0 {
                r is Err && r->Err_0 is LookupUnavailable
            } else if page.rows@.len() == 1 {
                r == Ok::<Row, IncidentReadError>(page.rows@[0])
            } else {
                r is Err && r->Err_0 is NumberAmbiguous
            },
            Err(f) => r is Err && (if is_denied(f) {
                r->Err_0 is AclDenied
            } else if f is Http {
                r->Err_0 is ServiceNowUnavailable
            } else {
                r->Err_0 is ServiceNowError
            }),
        },
{
    match reply {
        Ok(page) => {
            let mut rows: Vec<Row> = page.rows;
            if rows.len() == 0 {
                Err(IncidentReadError::LookupUnavailable)
            } else if rows.len() == 1 {
                Ok(rows.remove(0))
            } else {
                Err(IncidentReadError::NumberAmbiguous)
            }
        },
        Err(f) => Err(classify_incident_api_error(f)),
    }
}

// --- incidents of one group ---

/// The fields that a list of a group's incidents reads.
pub const INCIDENT_GROUP_LIST_FIELDS: [&'static str; 10] = [
    "sys_id",
    "number",
    "short_description",
    "state",
    "priority",
    "opened_at",
    "assigned_to",
    "assignment_group",
    "active",
    "sys_updated_on",
];

/// The query for one page of a group's active incidents.
pub open spec fn group_plan_of(
    group: Seq<char>,
    state: Option<Seq<char>>,
    cursor: Option<Seq<char>>,
    limit: u32,
) -> QueryView {
    QueryView::of("incident"@).fields(crate::text::names_of(INCIDENT_GROUP_LIST_FIELDS@)).display(
        DisplayMode::Both,
    ).no_links().ascending("sys_id"@).limit(limit).equals("assignment_group"@, group).equals(
        "active"@,
        "true"@,
    ).when_given("state"@, Operator::Equals, state).when_given(
        "sys_id"@,
        Operator::GreaterThan,
        cursor,
    )
}

pub fn group_plan(group: &str, state: &Option<String>, cursor: &Option<String>, limit: u32) -> (q:
    Query)
    ensures
        q@ == group_plan_of(group@, text_of(*state), text_of(*cursor), limit),
{
    let fields: Vec<String> = crate::text::strings_of(&INCIDENT_GROUP_LIST_FIELDS);
    Query::of("incident").fields(&fields).display(DisplayMode::Both).no_links().ascending(
        "sys_id",
    ).limit(limit).equals("assignment_group", group).equals("active", "true").when_given(
        "state",
        Operator::Equals,
        state,
    ).when_given("sys_id", Operator::GreaterThan, cursor)
}

/// One page of a group's incidents: the rows that are open work, and where the
/// page stands by all rows that it brought.
pub struct GroupPage {
    pub rows: Vec<Row>,
    pub mark: PageMark,
    pub limit: usize,
    pub state: Option<ResolvedIncidentState>,
}

pub fn group_page(
    rows: Vec<Row>,
    limit: usize,
    state: Option<ResolvedIncidentState>,
    terminal: &Vec<String>,
) -> (r: GroupPage)
    ensures
        r.state == state,
        row_views(r.rows@) == row_views(rows@).filter(open_rows(texts(terminal@))),
        marks(r.mark, row_views(rows@), limit as int),
        r.limit == limit,
{
    let mark: PageMark = page_mark(&rows, limit);
    let open: Vec<Row> = keep_open(&rows, terminal);
    GroupPage { rows: open, mark, limit, state }
}

} // verus!
