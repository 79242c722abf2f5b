//! What a page of records may be asked with. Everything is refused before the
//! provider is asked anything; what is accepted is in its usual spelling.
use vstd::prelude::*;
use vstd::string::*;

use crate::choices::IncidentAssignmentGroupListError;
use crate::incident::{
    chosen_limit, cursor_of, limit_failure, normalize_optional_sys_id, optional_sys_id,
    range_failure, validate_time_range, IncidentReadError, PageLimits,
};
use crate::listing::{lemma_pass_done, lemma_pass_step, lemma_pass_stopped, pass};
use crate::record_query::{
    ChangeRequestQueryFilters, RecordPageRequest, RecordQueryError, ResolvedResourceFilter,
    StoryQueryFilters,
};
use crate::tables::{
    bad_sys_id, normalize_record_lookup_sys_id, plan_parent_table,
    resource_plan_parent_table_for_number, sys_id_of,
};
use crate::text::{
    chars_of, decimal_text, has_prefix, is_digit, joined, joined3, list_has, same_any_case,
    same_ignoring_case, starts_with_text, text_of, texts, trim, trim_text, upper, upper_text,
};

verus! {

/// How long a page of change requests or stories is, where nothing is said of it.
pub const RECORD_QUERY_DEFAULT_LIMIT: usize = 50;

/// The longest page of change requests or stories.
pub const RECORD_QUERY_MAX_LIMIT: usize = 200;

/// The first of two reasons.
pub open spec fn first_reason(a: Option<Seq<char>>, b: Option<Seq<char>>) -> Option<Seq<char>> {
    if a is Some {
        a
    } else {
        b
    }
}

/// Why a reading failed, if it did.
pub open spec fn reason<T>(r: Result<T, Seq<char>>) -> Option<Seq<char>> {
    match r {
        Ok(_) => None,
        Err(m) => Some(m),
    }
}

pub open spec fn id_failure(value: Option<String>, field: Seq<char>) -> Option<Seq<char>> {
    reason(optional_sys_id(text_of(value), field))
}

/// The same id in its usual spelling.
pub open spec fn id_read(value: Option<String>, field: Seq<char>, read: Option<String>) -> bool {
    optional_sys_id(text_of(value), field) == Ok::<Option<Seq<char>>, Seq<char>>(text_of(read))
}

fn read_id(value: &Option<String>, field: &str) -> (r: Result<Option<String>, String>)
    ensures
        match id_failure(*value, field@) {
            Some(m) => r is Err && r->Err_0@ == m,
            None => r is Ok && id_read(*value, field@, r->Ok_0),
        },
{
    match normalize_optional_sys_id(value, field) {
        Ok(v) => Ok(v),
        Err(IncidentReadError::InvalidParams(m)) => Err(m),
        Err(_) => Err(String::new()),
    }
}

fn check_range(after: &Option<String>, before: &Option<String>, field: &str) -> (r: Result<(), String>)
    ensures
        match range_failure(text_of(*after), text_of(*before), field@) {
            Some(m) => r is Err && r->Err_0@ == m,
            None => r is Ok,
        },
{
    match validate_time_range(after, before, field) {
        Ok(_) => Ok(()),
        Err(IncidentReadError::InvalidParams(m)) => Err(m),
        Err(_) => Err(String::new()),
    }
}

fn read_limit(limit: Option<usize>, limits: &PageLimits) -> (r: Result<usize, String>)
    ensures
        match limit_failure(chosen_limit(limit, *limits), limits.max_limit) {
            Some(m) => r is Err && r->Err_0@ == m,
            None => r == Ok::<usize, String>(chosen_limit(limit, *limits)),
        },
{
    let n: usize = match limit {
        Some(n) => n,
        None => limits.default_limit,
    };
    if 1 <= n && n <= limits.max_limit {
        Ok(n)
    } else {
        let max: String = decimal_text(limits.max_limit as u64);
        Err(joined("limit must be between 1 and ", max.as_str()))
    }
}

fn read_cursor(cursor: &Option<String>) -> (r: Result<Option<String>, String>)
    ensures
        match r {
            Ok(c) => cursor_of(text_of(*cursor)) == Ok::<Option<Seq<char>>, Seq<char>>(text_of(c)),
            Err(m) => cursor_of(text_of(*cursor)) == Err::<Option<Seq<char>>, Seq<char>>(m@),
        },
{
    match cursor {
        None => Ok(None),
        Some(c) => match normalize_record_lookup_sys_id(c.as_str()) {
            Ok(id) => Ok(Some(id)),
            Err(m) => Err(m),
        },
    }
}

// --- numbers ---

/// A prefix and at least one digit.
pub open spec fn is_number_with(n: Seq<char>, prefix: Seq<char>) -> bool {
    n.len() > prefix.len() && has_prefix(n, prefix) && forall|i: int|
        prefix.len() <= i < n.len() ==> is_digit(#[trigger] n[i])
}

/// A number in its usual spelling.
pub open spec fn number_with(s: Seq<char>, prefix: Seq<char>) -> Option<Seq<char>> {
    if is_number_with(upper(trim(s)), prefix) {
        Some(upper(trim(s)))
    } else {
        None
    }
}

pub open spec fn bad_number_with(prefix: Seq<char>) -> Seq<char> {
    "number must match ^"@ + prefix + "[0-9]+$"@
}

fn read_number(value: &str, prefix: &str) -> (r: Option<String>)
    ensures
        match r {
            Some(n) => number_with(value@, prefix@) == Some(n@),
            None => number_with(value@, prefix@) is None,
        },
{
    let trimmed: String = trim_text(value);
    let number: String = upper_text(trimmed.as_str());
    let v: Vec<char> = chars_of(number.as_str());
    let from: usize = prefix.unicode_len();
    if v.len() <= from || !starts_with_text(number.as_str(), prefix) {
        return None;
    }
    let mut i: usize = from;
    while i < v.len()
        invariant
            from == prefix@.len(),
            from <= i <= v@.len(),
            v@ == number@,
            number@ == upper(trim(value@)),
            forall|j: int| from <= j < i ==> is_digit(#[trigger] v@[j]),
        decreases v@.len() - i,
    {
        if !('0' <= v[i] && v[i] <= '9') {
            assert(!is_digit(v@[i as int]));
            return None;
        }
        i += 1;
    }
    Some(number)
}

/// Takes one more number: it must be one of a story, and a new one.
pub open spec fn story_number_step() -> spec_fn(Seq<Seq<char>>, Seq<char>) -> Result<
    Seq<Seq<char>>,
    Seq<char>,
> {
    |taken: Seq<Seq<char>>, value: Seq<char>|
        match number_with(value, "STRY"@) {
            None => Err(bad_number_with("STRY"@)),
            Some(n) => if taken.contains(n) {
                Err("numbers must be unique after normalization"@)
            } else {
                Ok(taken.push(n))
            },
        }
}

/// Takes one more state: something, and something new in any case.
pub open spec fn story_state_step() -> spec_fn(Seq<Seq<char>>, Seq<char>) -> Result<
    Seq<Seq<char>>,
    Seq<char>,
> {
    |taken: Seq<Seq<char>>, value: Seq<char>|
        if trim(value).len() == 0 || named_already(taken, trim(value)) {
            Err("states values must be non-empty and unique"@)
        } else {
            Ok(taken.push(trim(value)))
        }
}

pub open spec fn named_already(taken: Seq<Seq<char>>, value: Seq<char>) -> bool {
    exists|i: int| 0 <= i < taken.len() && same_ignoring_case(#[trigger] taken[i], value)
}

fn has_name(taken: &Vec<String>, value: &str) -> (r: bool)
    ensures
        r == named_already(texts(taken@), value@),
{
    let mut i: usize = 0;
    while i < taken.len()
        invariant
            i <= taken@.len(),
            forall|j: int|
                0 <= j < i ==> !same_ignoring_case(#[trigger] texts(taken@)[j], value@),
        decreases taken@.len() - i,
    {
        if same_any_case(taken[i].as_str(), value) {
            assert(same_ignoring_case(texts(taken@)[i as int], value@));
            return true;
        }
        i += 1;
    }
    false
}

/// A list that was given and must hold something.
pub open spec fn given_list(
    values: Option<Vec<String>>,
    field: Seq<char>,
    step: spec_fn(Seq<Seq<char>>, Seq<char>) -> Result<Seq<Seq<char>>, Seq<char>>,
) -> Result<Option<Seq<Seq<char>>>, Seq<char>> {
    match values {
        None => Ok(None),
        Some(v) => if v@.len() == 0 {
            Err(field + " must contain at least one value"@)
        } else {
            match pass(texts(v@), Seq::empty(), step) {
                Ok(list) => Ok(Some(list)),
                Err(m) => Err(m),
            }
        },
    }
}

pub open spec fn story_numbers(values: Option<Vec<String>>) -> Result<
    Option<Seq<Seq<char>>>,
    Seq<char>,
> {
    given_list(values, "numbers"@, story_number_step())
}

pub open spec fn story_states(values: Option<Vec<String>>) -> Result<
    Option<Seq<Seq<char>>>,
    Seq<char>,
> {
    given_list(values, "states"@, story_state_step())
}

/// Agreement of an optional list with a stated one.
pub open spec fn list_read(
    r: Result<Option<Vec<String>>, String>,
    s: Result<Option<Seq<Seq<char>>>, Seq<char>>,
) -> bool {
    match r {
        Ok(v) => s == Ok::<Option<Seq<Seq<char>>>, Seq<char>>(crate::record_query::list_of(v)),
        Err(m) => s == Err::<Option<Seq<Seq<char>>>, Seq<char>>(m@),
    }
}

#[verifier::loop_isolation(false)]
fn read_numbers(values: &Option<Vec<String>>) -> (r: Result<Option<Vec<String>>, String>)
    ensures
        list_read(r, story_numbers(*values)),
{
    let list: &Vec<String> = match values {
        Some(v) => v,
        None => return Ok(None),
    };
    if list.is_empty() {
        return Err(joined("numbers", " must contain at least one value"));
    }
    let ghost all = texts(list@);
    let ghost none: Seq<Seq<char>> = Seq::empty();
    let ghost step = story_number_step();
    let mut taken: Vec<String> = Vec::new();
    let mut i: usize = 0;
    proof {
        lemma_pass_done(all, none, step);
        assert(texts(taken@) =~= none);
    }
    while i < list.len()
        invariant
            i <= list@.len(),
            pass(all.subrange(0, i as int), none, step) == Ok::<Seq<Seq<char>>, Seq<char>>(
                texts(taken@),
            ),
        decreases list@.len() - i,
    {
        proof {
            lemma_pass_step(all, none, step, i as int);
            if pass(all.subrange(0, i + 1), none, step) is Err {
                lemma_pass_stopped(all, none, step, i + 1);
            }
        }
        let number: String = match read_number(list[i].as_str(), "STRY") {
            Some(n) => n,
            None => return Err(joined3("number must match ^", "STRY", "[0-9]+$")),
        };
        if list_has(&taken, number.as_str()) {
            return Err("numbers must be unique after normalization".to_owned());
        }
        let ghost before = taken@;
        taken.push(number);
        assert(texts(taken@) =~= texts(before).push(number@));
        i += 1;
    }
    Ok(Some(taken))
}

#[verifier::loop_isolation(false)]
fn read_states(values: &Option<Vec<String>>) -> (r: Result<Option<Vec<String>>, String>)
    ensures
        list_read(r, story_states(*values)),
{
    let list: &Vec<String> = match values {
        Some(v) => v,
        None => return Ok(None),
    };
    if list.is_empty() {
        return Err(joined("states", " must contain at least one value"));
    }
    let ghost all = texts(list@);
    let ghost none: Seq<Seq<char>> = Seq::empty();
    let ghost step = story_state_step();
    let mut taken: Vec<String> = Vec::new();
    let mut i: usize = 0;
    proof {
        lemma_pass_done(all, none, step);
        assert(texts(taken@) =~= none);
    }
    while i < list.len()
        invariant
            i <= list@.len(),
            pass(all.subrange(0, i as int), none, step) == Ok::<Seq<Seq<char>>, Seq<char>>(
                texts(taken@),
            ),
        decreases list@.len() - i,
    {
        proof {
            lemma_pass_step(all, none, step, i as int);
            if pass(all.subrange(0, i + 1), none, step) is Err {
                lemma_pass_stopped(all, none, step, i + 1);
            }
        }
        let value: String = trim_text(list[i].as_str());
        if value.as_str().is_empty() || has_name(&taken, value.as_str()) {
            return Err("states values must be non-empty and unique".to_owned());
        }
        let ghost before = taken@;
        taken.push(value);
        assert(texts(taken@) =~= texts(before).push(value@));
        i += 1;
    }
    Ok(Some(taken))
}

// --- change requests and stories ---

/// What records are asked for.
pub enum RecordQueryInput {
    ChangeRequest {
        filters: ChangeRequestQueryFilters,
        limit: Option<usize>,
        cursor: Option<String>,
    },
    Story {
        filters: StoryQueryFilters,
        include_description: bool,
        limit: Option<usize>,
        cursor: Option<String>,
    },
}

/// The text without the blanks around it.
pub open spec fn trimmed(value: Option<String>) -> Option<Seq<char>> {
    match value {
        Some(v) => Some(trim(v@)),
        None => None,
    }
}

fn read_text(value: &Option<String>) -> (r: Option<String>)
    ensures
        text_of(r) == trimmed(*value),
{
    match value {
        Some(v) => Some(trim_text(v.as_str())),
        None => None,
    }
}

pub open spec fn change_refusal(f: ChangeRequestQueryFilters) -> Option<Seq<char>> {
    first_reason(
        id_failure(f.assignment_group, "assignment_group"@),
        first_reason(
            id_failure(f.assigned_to, "assigned_to"@),
            range_failure(
                text_of(f.start_date_after),
                text_of(f.start_date_before),
                "start_date"@,
            ),
        ),
    )
}

pub open spec fn change_read(f: ChangeRequestQueryFilters, g: ChangeRequestQueryFilters) -> bool {
    &&& id_read(f.assignment_group, "assignment_group"@, g.assignment_group)
    &&& id_read(f.assigned_to, "assigned_to"@, g.assigned_to)
    &&& text_of(g.state) == trimmed(f.state)
    &&& g.start_date_after == f.start_date_after
    &&& g.start_date_before == f.start_date_before
}

fn read_change(f: ChangeRequestQueryFilters) -> (r: Result<ChangeRequestQueryFilters, String>)
    ensures
        match change_refusal(f) {
            Some(m) => r is Err && r->Err_0@ == m,
            None => r is Ok && change_read(f, r->Ok_0),
        },
{
    let assignment_group: Option<String> = match read_id(&f.assignment_group, "assignment_group") {
        Ok(v) => v,
        Err(m) => return Err(m),
    };
    let assigned_to: Option<String> = match read_id(&f.assigned_to, "assigned_to") {
        Ok(v) => v,
        Err(m) => return Err(m),
    };
    if let Err(m) = check_range(&f.start_date_after, &f.start_date_before, "start_date") {
        return Err(m);
    }
    let state: Option<String> = read_text(&f.state);
    Ok(
        ChangeRequestQueryFilters {
            assignment_group,
            assigned_to,
            state,
            start_date_after: f.start_date_after,
            start_date_before: f.start_date_before,
        },
    )
}

/// Why the ids of a filter on stories are refused.
pub open spec fn story_id_refusal(f: StoryQueryFilters) -> Option<Seq<char>> {
    first_reason(
        id_failure(f.assignment_group, "assignment_group"@),
        first_reason(
            id_failure(f.assigned_to, "assigned_to"@),
            first_reason(
                id_failure(f.story_owner, "story_owner"@),
                first_reason(
                    id_failure(f.lead_developer, "lead_developer"@),
                    first_reason(
                        id_failure(f.sprint, "sprint"@),
                        first_reason(
                            id_failure(f.project, "project"@),
                            id_failure(f.cmdb_ci, "cmdb_ci"@),
                        ),
                    ),
                ),
            ),
        ),
    )
}

pub open spec fn story_refusal(f: StoryQueryFilters) -> Option<Seq<char>> {
    first_reason(
        story_id_refusal(f),
        first_reason(
            reason(story_states(f.states)),
            first_reason(
                range_failure(text_of(f.due_date_after), text_of(f.due_date_before), "due_date"@),
                reason(story_numbers(f.numbers)),
            ),
        ),
    )
}

pub open spec fn story_read(f: StoryQueryFilters, g: StoryQueryFilters) -> bool {
    &&& id_read(f.assignment_group, "assignment_group"@, g.assignment_group)
    &&& id_read(f.assigned_to, "assigned_to"@, g.assigned_to)
    &&& id_read(f.story_owner, "story_owner"@, g.story_owner)
    &&& id_read(f.lead_developer, "lead_developer"@, g.lead_developer)
    &&& story_states(f.states) == Ok::<Option<Seq<Seq<char>>>, Seq<char>>(
        crate::record_query::list_of(g.states),
    )
    &&& id_read(f.sprint, "sprint"@, g.sprint)
    &&& id_read(f.project, "project"@, g.project)
    &&& id_read(f.cmdb_ci, "cmdb_ci"@, g.cmdb_ci)
    &&& g.blocked == f.blocked
    &&& g.due_date_after == f.due_date_after
    &&& g.due_date_before == f.due_date_before
    &&& g.updated_after == f.updated_after
    &&& story_numbers(f.numbers) == Ok::<Option<Seq<Seq<char>>>, Seq<char>>(
        crate::record_query::list_of(g.numbers),
    )
    &&& text_of(g.text) == trimmed(f.text)
}

fn read_story(f: StoryQueryFilters) -> (r: Result<StoryQueryFilters, String>)
    ensures
        match story_refusal(f) {
            Some(m) => r is Err && r->Err_0@ == m,
            None => r is Ok && story_read(f, r->Ok_0),
        },
{
    let assignment_group: Option<String> = match read_id(&f.assignment_group, "assignment_group") {
        Ok(v) => v,
        Err(m) => return Err(m),
    };
    let assigned_to: Option<String> = match read_id(&f.assigned_to, "assigned_to") {
        Ok(v) => v,
        Err(m) => return Err(m),
    };
    let story_owner: Option<String> = match read_id(&f.story_owner, "story_owner") {
        Ok(v) => v,
        Err(m) => return Err(m),
    };
    let lead_developer: Option<String> = match read_id(&f.lead_developer, "lead_developer") {
        Ok(v) => v,
        Err(m) => return Err(m),
    };
    let sprint: Option<String> = match read_id(&f.sprint, "sprint") {
        Ok(v) => v,
        Err(m) => return Err(m),
    };
    let project: Option<String> = match read_id(&f.project, "project") {
        Ok(v) => v,
        Err(m) => return Err(m),
    };
    let cmdb_ci: Option<String> = match read_id(&f.cmdb_ci, "cmdb_ci") {
        Ok(v) => v,
        Err(m) => return Err(m),
    };
    let states: Option<Vec<String>> = match read_states(&f.states) {
        Ok(v) => v,
        Err(m) => return Err(m),
    };
    if let Err(m) = check_range(&f.due_date_after, &f.due_date_before, "due_date") {
        return Err(m);
    }
    let numbers: Option<Vec<String>> = match read_numbers(&f.numbers) {
        Ok(v) => v,
        Err(m) => return Err(m),
    };
    let text: Option<String> = read_text(&f.text);
    Ok(
        StoryQueryFilters {
            assignment_group,
            assigned_to,
            story_owner,
            lead_developer,
            states,
            sprint,
            project,
            cmdb_ci,
            blocked: f.blocked,
            due_date_after: f.due_date_after,
            due_date_before: f.due_date_before,
            updated_after: f.updated_after,
            numbers,
            text,
        },
    )
}

/// The limits of pages of change requests and stories.
pub open spec fn record_limits() -> PageLimits {
    PageLimits { default_limit: RECORD_QUERY_DEFAULT_LIMIT, max_limit: RECORD_QUERY_MAX_LIMIT }
}

/// Why the place of a page is refused.
pub open spec fn place_refusal(
    limit: Option<usize>,
    cursor: Option<String>,
    limits: PageLimits,
) -> Option<Seq<char>> {
    first_reason(
        limit_failure(chosen_limit(limit, limits), limits.max_limit),
        reason(cursor_of(text_of(cursor))),
    )
}

/// Why a request is refused, the first reason first.
pub open spec fn request_refusal(input: RecordQueryInput) -> Option<Seq<char>> {
    match input {
        RecordQueryInput::ChangeRequest { filters, limit, cursor } => first_reason(
            change_refusal(filters),
            place_refusal(limit, cursor, record_limits()),
        ),
        RecordQueryInput::Story { filters, limit, cursor, .. } => first_reason(
            story_refusal(filters),
            place_refusal(limit, cursor, record_limits()),
        ),
    }
}

/// What an accepted request asks for.
pub open spec fn request_read(input: RecordQueryInput, request: RecordPageRequest) -> bool {
    match input {
        RecordQueryInput::ChangeRequest { filters, limit, cursor } => {
            request matches RecordPageRequest::ChangeRequest { filters: f, limit: l, cursor: c }
                && change_read(filters, f) && l == chosen_limit(limit, record_limits()) && cursor_of(
                text_of(cursor),
            ) == Ok::<Option<Seq<char>>, Seq<char>>(text_of(c))
        },
        RecordQueryInput::Story { filters, include_description, limit, cursor } => {
            request matches RecordPageRequest::Story {
                filters: f,
                include_description: d,
                limit: l,
                cursor: c,
            } && story_read(filters, f) && d == include_description && l == chosen_limit(
                limit,
                record_limits(),
            ) && cursor_of(text_of(cursor)) == Ok::<Option<Seq<char>>, Seq<char>>(text_of(c))
        },
    }
}

/// Where a page begins and how long it is.
fn read_place(limit: Option<usize>, cursor: &Option<String>, limits: &PageLimits) -> (r: Result<
    (usize, Option<String>),
    String,
>)
    ensures
        match place_refusal(limit, *cursor, *limits) {
            Some(m) => r is Err && r->Err_0@ == m,
            None => r is Ok && r->Ok_0.0 == chosen_limit(limit, *limits) && cursor_of(
                text_of(*cursor),
            ) == Ok::<Option<Seq<char>>, Seq<char>>(text_of(r->Ok_0.1)),
        },
{
    let n: usize = match read_limit(limit, limits) {
        Ok(n) => n,
        Err(m) => return Err(m),
    };
    match read_cursor(cursor) {
        Ok(c) => Ok((n, c)),
        Err(m) => Err(m),
    }
}

/// Accepts a request for change requests or stories, or refuses it.
pub fn validate_record_query(input: RecordQueryInput) -> (r: Result<
    RecordPageRequest,
    RecordQueryError,
>)
    ensures
        match request_refusal(input) {
            Some(m) => r matches Err(RecordQueryError::InvalidParams(e)) && e@ == m,
            None => r is Ok && request_read(input, r->Ok_0),
        },
{
    let limits = PageLimits {
        default_limit: RECORD_QUERY_DEFAULT_LIMIT,
        max_limit: RECORD_QUERY_MAX_LIMIT,
    };
    match input {
        RecordQueryInput::ChangeRequest { filters, limit, cursor } => {
            let filters: ChangeRequestQueryFilters = match read_change(filters) {
                Ok(f) => f,
                Err(m) => return Err(RecordQueryError::InvalidParams(m)),
            };
            match read_place(limit, &cursor, &limits) {
                Ok((n, c)) => Ok(
                    RecordPageRequest::ChangeRequest { filters, limit: n as u32, cursor: c },
                ),
                Err(m) => Err(RecordQueryError::InvalidParams(m)),
            }
        },
        RecordQueryInput::Story { filters, include_description, limit, cursor } => {
            let filters: StoryQueryFilters = match read_story(filters) {
                Ok(f) => f,
                Err(m) => return Err(RecordQueryError::InvalidParams(m)),
            };
            match read_place(limit, &cursor, &limits) {
                Ok((n, c)) => Ok(
                    RecordPageRequest::Story {
                        filters,
                        include_description,
                        limit: n as u32,
                        cursor: c,
                    },
                ),
                Err(m) => Err(RecordQueryError::InvalidParams(m)),
            }
        },
    }
}

// --- the tasks of a change request ---

pub struct ChangeRequestTaskListInput {
    pub change_request_number: String,
    pub limit: Option<usize>,
    pub cursor: Option<String>,
}

/// An accepted request for the tasks of one change request.
pub struct ValidatedChangeRequestTaskList {
    pub change_request_number: String,
    pub limit: usize,
    pub cursor: Option<String>,
}

/// Accepts a request for the tasks of one change request, or refuses it.
pub fn validate_change_request_task_list(
    input: &ChangeRequestTaskListInput,
    limits: &PageLimits,
) -> (r: Result<ValidatedChangeRequestTaskList, RecordQueryError>)
    ensures
        match number_with(input.change_request_number@, "CHG"@) {
            None => r matches Err(RecordQueryError::InvalidParams(e)) && e@ == bad_number_with(
                "CHG"@,
            ),
            Some(n) => match place_refusal(input.limit, input.cursor, *limits) {
                Some(m) => r matches Err(RecordQueryError::InvalidParams(e)) && e@ == m,
                None => r is Ok && r->Ok_0.change_request_number@ == n && r->Ok_0.limit
                    == chosen_limit(input.limit, *limits) && cursor_of(text_of(input.cursor)) == Ok::<
                    Option<Seq<char>>,
                    Seq<char>,
                >(text_of(r->Ok_0.cursor)),
            },
        },
{
    let number: String = match read_number(input.change_request_number.as_str(), "CHG") {
        Some(n) => n,
        None => return Err(
            RecordQueryError::InvalidParams(joined3("number must match ^", "CHG", "[0-9]+$")),
        ),
    };
    match read_place(input.limit, &input.cursor, limits) {
        Ok((limit, cursor)) => Ok(
            ValidatedChangeRequestTaskList { change_request_number: number, limit, cursor },
        ),
        Err(m) => Err(RecordQueryError::InvalidParams(m)),
    }
}

// --- the incidents of a group ---

pub struct IncidentAssignmentGroupListInput {
    pub assignment_group_sys_id: String,
    pub state: Option<String>,
    pub limit: Option<usize>,
    pub cursor: Option<String>,
}

/// An accepted request for the incidents of a group.
pub struct ValidatedIncidentAssignmentGroupList {
    pub assignment_group_sys_id: String,
    pub state_selector: Option<String>,
    pub effective_limit: usize,
    pub cursor: Option<String>,
}

/// Accepts a request for the incidents of a group, or refuses it.
pub fn validate_incident_assignment_group_input(
    input: &IncidentAssignmentGroupListInput,
    limits: &PageLimits,
) -> (r: Result<ValidatedIncidentAssignmentGroupList, IncidentAssignmentGroupListError>)
    ensures
        match sys_id_of(input.assignment_group_sys_id@) {
            None => r matches Err(IncidentAssignmentGroupListError::InvalidParams(e)) && e@
                == bad_sys_id(),
            Some(id) => match place_refusal(input.limit, input.cursor, *limits) {
                Some(m) => r matches Err(IncidentAssignmentGroupListError::InvalidParams(e)) && e@
                    == m,
                None => r is Ok && r->Ok_0.assignment_group_sys_id@ == id && text_of(
                    r->Ok_0.state_selector,
                ) == trimmed(input.state) && r->Ok_0.effective_limit == chosen_limit(
                    input.limit,
                    *limits,
                ) && cursor_of(text_of(input.cursor)) == Ok::<Option<Seq<char>>, Seq<char>>(
                    text_of(r->Ok_0.cursor),
                ),
            },
        },
{
    let group: String = match normalize_record_lookup_sys_id(
        input.assignment_group_sys_id.as_str(),
    ) {
        Ok(id) => id,
        Err(m) => return Err(IncidentAssignmentGroupListError::InvalidParams(m)),
    };
    match read_place(input.limit, &input.cursor, limits) {
        Ok((limit, cursor)) => Ok(
            ValidatedIncidentAssignmentGroupList {
                assignment_group_sys_id: group,
                state_selector: read_text(&input.state),
                effective_limit: limit,
                cursor,
            },
        ),
        Err(m) => Err(IncidentAssignmentGroupListError::InvalidParams(m)),
    }
}

// --- resource plans ---

/// Which record the plans belong to.
pub enum TaskSelector {
    Number(String),
    SysId(String),
    Any,
}

/// Why the record is refused that plans should belong to.
pub open spec fn task_refusal(task: TaskSelector) -> Option<Seq<char>> {
    match task {
        TaskSelector::Number(n) => if plan_parent_table(n@) is None {
            Some("parent_number must start with DMND or PRJ"@)
        } else {
            None
        },
        TaskSelector::SysId(id) => if sys_id_of(id@) is None {
            Some(bad_sys_id())
        } else {
            None
        },
        TaskSelector::Any => None,
    }
}

pub open spec fn resource_refusal(resource: ResolvedResourceFilter) -> Option<Seq<char>> {
    match resource {
        ResolvedResourceFilter::Group(id) => if sys_id_of(id@) is None {
            Some(bad_sys_id())
        } else {
            None
        },
        ResolvedResourceFilter::User(id) => if sys_id_of(id@) is None {
            Some(bad_sys_id())
        } else {
            None
        },
        _ => None,
    }
}

/// The same record, its sys_id in the usual spelling.
pub open spec fn task_read(task: TaskSelector, read: TaskSelector) -> bool {
    match task {
        TaskSelector::SysId(id) => read matches TaskSelector::SysId(i) && sys_id_of(id@) == Some(
            i@,
        ),
        other => read == other,
    }
}

/// The same resource, its sys_id in the usual spelling.
pub open spec fn resource_read(
    resource: ResolvedResourceFilter,
    read: ResolvedResourceFilter,
) -> bool {
    match resource {
        ResolvedResourceFilter::Group(id) => read matches ResolvedResourceFilter::Group(i)
            && sys_id_of(id@) == Some(i@),
        ResolvedResourceFilter::User(id) => read matches ResolvedResourceFilter::User(i)
            && sys_id_of(id@) == Some(i@),
        other => read == other,
    }
}

/// An accepted request for resource plans.
pub struct ResourcePlanPage {
    pub task: TaskSelector,
    pub resource: ResolvedResourceFilter,
    pub limit: usize,
}

/// Accepts a request for resource plans, or refuses it.
pub fn validate_list_input(
    task: TaskSelector,
    resource: ResolvedResourceFilter,
    limit: Option<usize>,
    limits: &PageLimits,
) -> (r: Result<ResourcePlanPage, String>)
    ensures
        match first_reason(
            task_refusal(task),
            first_reason(
                resource_refusal(resource),
                limit_failure(chosen_limit(limit, *limits), limits.max_limit),
            ),
        ) {
            Some(m) => r is Err && r->Err_0@ == m,
            None => r is Ok && task_read(task, r->Ok_0.task) && resource_read(
                resource,
                r->Ok_0.resource,
            ) && r->Ok_0.limit == chosen_limit(limit, *limits),
        },
{
    let task: TaskSelector = match task {
        TaskSelector::Number(n) => {
            if resource_plan_parent_table_for_number(n.as_str()).is_none() {
                return Err("parent_number must start with DMND or PRJ".to_owned());
            }
            TaskSelector::Number(n)
        },
        TaskSelector::SysId(id) => match normalize_record_lookup_sys_id(id.as_str()) {
            Ok(i) => TaskSelector::SysId(i),
            Err(m) => return Err(m),
        },
        TaskSelector::Any => TaskSelector::Any,
    };
    let resource: ResolvedResourceFilter = match resource {
        ResolvedResourceFilter::Group(id) => match normalize_record_lookup_sys_id(id.as_str()) {
            Ok(i) => ResolvedResourceFilter::Group(i),
            Err(m) => return Err(m),
        },
        ResolvedResourceFilter::User(id) => match normalize_record_lookup_sys_id(id.as_str()) {
            Ok(i) => ResolvedResourceFilter::User(i),
            Err(m) => return Err(m),
        },
        other => other,
    };
    match read_limit(limit, limits) {
        Ok(n) => Ok(ResourcePlanPage { task, resource, limit: n }),
        Err(m) => Err(m),
    }
}

/// What an accepted request asks for is between the limits, and a page behind a
/// cursor is behind a sys_id.
pub proof fn accepted_requests_are_bounded(input: RecordQueryInput, request: RecordPageRequest)
    requires
        request_refusal(input) is None,
        request_read(input, request),
    ensures
        match request {
            RecordPageRequest::ChangeRequest { limit, cursor, .. } => 1 <= limit
                <= RECORD_QUERY_MAX_LIMIT && (cursor is Some ==> exists|c: Seq<char>| #[trigger]
                sys_id_of(c) == Some(cursor->0@)),
            RecordPageRequest::Story { limit, cursor, .. } => 1 <= limit
                <= RECORD_QUERY_MAX_LIMIT && (cursor is Some ==> exists|c: Seq<char>| #[trigger]
                sys_id_of(c) == Some(cursor->0@)),
        },
{
}

} // verus!
