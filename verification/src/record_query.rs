//! Live pages of change requests, of stories, of a change's tasks and of resource plans.
use vstd::prelude::*;
use vstd::string::*;

use crate::choices::{choice_views, copy_choices, meant, pick_choice, FieldChoice, Pick};
use crate::listing::{lemma_pass_done, lemma_pass_step, lemma_pass_stopped, pass};
use crate::query::{DisplayMode, Operator, Query, QueryView};
use crate::row::{row_views, Row};
use crate::tables::{plan_parent_table, resource_plan_parent_table_for_number};
use crate::text::{joined3, list_has, text_of, texts};
use crate::work::{marks, page_mark, PageMark};

verus! {

/// Why a page was refused.
#[derive(Debug)]
pub enum RecordQueryError {
    InvalidParams(String),
    UnresolvedState {
        requested: String,
        table: String,
        field: String,
        ambiguous: bool,
        choices: Vec<FieldChoice>,
    },
}

/// The error names a selector that does not settle a state of a table.
pub open spec fn is_unresolved(
    e: RecordQueryError,
    selector: Seq<char>,
    table: Seq<char>,
    ambiguous: bool,
    choices: Seq<FieldChoice>,
) -> bool {
    e matches RecordQueryError::UnresolvedState {
        requested,
        table: t,
        field,
        ambiguous: a,
        choices: c,
    } && requested@ == selector && t@ == table && field@ == "state"@ && a == ambiguous && c@
        == choices
}

fn unresolved_state(selector: &str, table: &str, ambiguous: bool, choices: &Vec<FieldChoice>) -> (e:
    RecordQueryError)
    ensures
        is_unresolved(e, selector@, table@, ambiguous, choices@),
{
    RecordQueryError::UnresolvedState {
        requested: selector.to_owned(),
        table: table.to_owned(),
        field: "state".to_owned(),
        ambiguous,
        choices: copy_choices(choices),
    }
}

/// The raw value of the state that a selector means.
pub fn resolve_record_query_state(selector: &str, table: &str, choices: &Vec<FieldChoice>) -> (r:
    Result<String, RecordQueryError>)
    ensures
        ({
            let hits = meant(choice_views(choices@), selector@);
            match r {
                Ok(value) => hits.len() == 1 && value@ == hits[0].value,
                Err(e) => hits.len() != 1 && is_unresolved(
                    e,
                    selector@,
                    table@,
                    hits.len() > 1,
                    choices@,
                ),
            }
        }),
{
    match pick_choice(choices, selector) {
        Pick::One(i) => Ok(choices[i].value.clone()),
        Pick::Nothing => Err(unresolved_state(selector, table, false, choices)),
        Pick::Several => Err(unresolved_state(selector, table, true, choices)),
    }
}

/// The raw values of the states that several selectors mean; two selectors must
/// not mean the same state.
#[verifier::loop_isolation(false)]
pub fn resolve_story_states(selectors: &Vec<String>, choices: &Vec<FieldChoice>) -> (r: Result<
    Vec<String>,
    RecordQueryError,
>)
    ensures
        match crate::incident::states_of(texts(selectors@), choice_views(choices@)) {
            Ok(values) => r is Ok && texts(r->Ok_0@) == values,
            Err(refusal) => r is Err && is_unresolved(
                r->Err_0,
                refusal.requested,
                "rm_story"@,
                refusal.ambiguous,
                choices@,
            ),
        },
{
    let ghost all = texts(selectors@);
    let ghost none: Seq<Seq<char>> = Seq::empty();
    let ghost step = crate::incident::state_step(choice_views(choices@));
    let mut taken: Vec<String> = Vec::new();
    let mut i: usize = 0;
    proof {
        lemma_pass_done(all, none, step);
        assert(texts(taken@) =~= none);
    }
    while i < selectors.len()
        invariant
            i <= selectors@.len(),
            pass(all.subrange(0, i as int), none, step) == Ok::<
                Seq<Seq<char>>,
                crate::incident::StateRefusal,
            >(texts(taken@)),
        decreases selectors@.len() - i,
    {
        proof {
            lemma_pass_step(all, none, step, i as int);
            if pass(all.subrange(0, i + 1), none, step) is Err {
                lemma_pass_stopped(all, none, step, i + 1);
            }
        }
        let selector: &str = selectors[i].as_str();
        let value: String = match resolve_record_query_state(selector, "rm_story", choices) {
            Ok(v) => v,
            Err(e) => return Err(e),
        };
        if list_has(&taken, value.as_str()) {
            return Err(unresolved_state(selector, "rm_story", true, choices));
        }
        let ghost before = taken@;
        taken.push(value);
        assert(texts(taken@) =~= texts(before).push(value@));
        i += 1;
    }
    Ok(taken)
}

pub struct ChangeRequestQueryFilters {
    pub assignment_group: Option<String>,
    pub assigned_to: Option<String>,
    pub state: Option<String>,
    pub start_date_after: Option<String>,
    pub start_date_before: Option<String>,
}

pub struct StoryQueryFilters {
    pub assignment_group: Option<String>,
    pub assigned_to: Option<String>,
    pub story_owner: Option<String>,
    pub lead_developer: Option<String>,
    pub states: Option<Vec<String>>,
    pub sprint: Option<String>,
    pub project: Option<String>,
    pub cmdb_ci: Option<String>,
    pub blocked: Option<bool>,
    pub due_date_after: Option<String>,
    pub due_date_before: Option<String>,
    pub updated_after: Option<String>,
    pub numbers: Option<Vec<String>>,
    pub text: Option<String>,
}

/// A page reads so many fields of so many rows, in the order of their sys_ids
/// and behind the cursor.
pub open spec fn page_of(
    table: Seq<char>,
    fields: Seq<Seq<char>>,
    limit: u32,
) -> QueryView {
    QueryView::of(table).fields(fields).display(DisplayMode::Both).no_links().limit(limit)
}

pub open spec fn behind(q: QueryView, cursor: Option<Seq<char>>) -> QueryView {
    q.when_given("sys_id"@, Operator::GreaterThan, cursor).ascending("sys_id"@)
}

/// The query for a page of change requests; `state` is the raw value that the
/// filter's state was resolved to.
#[verifier::opaque]
pub open spec fn change_plan_of(
    f: ChangeRequestQueryFilters,
    state: Option<Seq<char>>,
    fields: Seq<Seq<char>>,
    limit: u32,
    cursor: Option<Seq<char>>,
) -> QueryView {
    behind(
        page_of("change_request"@, fields, limit).when_given(
            "assignment_group"@,
            Operator::Equals,
            text_of(f.assignment_group),
        ).when_given("assigned_to"@, Operator::Equals, text_of(f.assigned_to)).when_given(
            "state"@,
            Operator::Equals,
            state,
        ).when_given("start_date"@, Operator::GreaterThan, text_of(f.start_date_after)).when_given(
            "start_date"@,
            Operator::LessThan,
            text_of(f.start_date_before),
        ),
        cursor,
    )
}

pub fn change_plan(
    f: &ChangeRequestQueryFilters,
    state: &Option<String>,
    fields: &Vec<String>,
    limit: u32,
    cursor: &Option<String>,
) -> (q: Query)
    ensures
        q@ == change_plan_of(*f, text_of(*state), texts(fields@), limit, text_of(*cursor)),
{
    reveal(change_plan_of);
    Query::of("change_request").fields(fields).display(DisplayMode::Both).no_links().limit(
        limit,
    ).when_given("assignment_group", Operator::Equals, &f.assignment_group).when_given(
        "assigned_to",
        Operator::Equals,
        &f.assigned_to,
    ).when_given("state", Operator::Equals, state).when_given(
        "start_date",
        Operator::GreaterThan,
        &f.start_date_after,
    ).when_given("start_date", Operator::LessThan, &f.start_date_before).when_given(
        "sys_id",
        Operator::GreaterThan,
        cursor,
    ).ascending("sys_id")
}

/// One of the values where a list is given: the value itself where it is the only one.
pub open spec fn one_of_given(q: QueryView, field: Seq<char>, values: Option<Seq<Seq<char>>>) -> QueryView {
    match values {
        Some(v) => q.one_of(field, v),
        None => q,
    }
}

pub open spec fn list_of(o: Option<Vec<String>>) -> Option<Seq<Seq<char>>> {
    match o {
        Some(v) => Some(texts(v@)),
        None => None,
    }
}

fn with_one_of(q: Query, field: &str, values: &Option<Vec<String>>) -> (r: Query)
    ensures
        r@ == one_of_given(q@, field@, list_of(*values)),
{
    match values {
        Some(v) => q.one_of(field, v),
        None => q,
    }
}

/// The query for a page of stories; `states` are the raw values that the
/// filter's states were resolved to.
#[verifier::opaque]
pub open spec fn story_plan_of(
    f: StoryQueryFilters,
    states: Option<Seq<Seq<char>>>,
    fields: Seq<Seq<char>>,
    limit: u32,
    cursor: Option<Seq<char>>,
) -> QueryView {
    let people = page_of("rm_story"@, fields, limit).when_given(
        "assignment_group"@,
        Operator::Equals,
        text_of(f.assignment_group),
    ).when_given("assigned_to"@, Operator::Equals, text_of(f.assigned_to)).when_given(
        "u_story_owner"@,
        Operator::Equals,
        text_of(f.story_owner),
    ).when_given("u_lead_dev"@, Operator::Equals, text_of(f.lead_developer));
    let scope = one_of_given(people, "state"@, states).when_given(
        "sprint"@,
        Operator::Equals,
        text_of(f.sprint),
    ).when_given("project"@, Operator::Equals, text_of(f.project)).when_given(
        "cmdb_ci"@,
        Operator::Equals,
        text_of(f.cmdb_ci),
    ).flag("blocked"@, f.blocked).when_given(
        "due_date"@,
        Operator::GreaterThan,
        text_of(f.due_date_after),
    ).when_given("due_date"@, Operator::LessThan, text_of(f.due_date_before)).when_given(
        "sys_updated_on"@,
        Operator::GreaterThan,
        text_of(f.updated_after),
    );
    behind(
        one_of_given(scope, "number"@, list_of(f.numbers)).when_given(
            "short_description"@,
            Operator::Contains,
            text_of(f.text),
        ),
        cursor,
    )
}

pub fn story_plan(
    f: &StoryQueryFilters,
    states: &Option<Vec<String>>,
    fields: &Vec<String>,
    limit: u32,
    cursor: &Option<String>,
) -> (q: Query)
    ensures
        q@ == story_plan_of(*f, list_of(*states), texts(fields@), limit, text_of(*cursor)),
{
    reveal(story_plan_of);
    let people: Query = Query::of("rm_story").fields(fields).display(
        DisplayMode::Both,
    ).no_links().limit(limit).when_given(
        "assignment_group",
        Operator::Equals,
        &f.assignment_group,
    ).when_given("assigned_to", Operator::Equals, &f.assigned_to).when_given(
        "u_story_owner",
        Operator::Equals,
        &f.story_owner,
    ).when_given("u_lead_dev", Operator::Equals, &f.lead_developer);
    let scope: Query = with_one_of(people, "state", states).when_given(
        "sprint",
        Operator::Equals,
        &f.sprint,
    ).when_given("project", Operator::Equals, &f.project).when_given(
        "cmdb_ci",
        Operator::Equals,
        &f.cmdb_ci,
    ).flag("blocked", f.blocked).when_given(
        "due_date",
        Operator::GreaterThan,
        &f.due_date_after,
    ).when_given("due_date", Operator::LessThan, &f.due_date_before).when_given(
        "sys_updated_on",
        Operator::GreaterThan,
        &f.updated_after,
    );
    with_one_of(scope, "number", &f.numbers).when_given(
        "short_description",
        Operator::Contains,
        &f.text,
    ).when_given("sys_id", Operator::GreaterThan, cursor).ascending("sys_id")
}

/// The fields of a story page: the usual ones, and the descriptions where they
/// are asked for.
pub fn story_fields(usual: &Vec<String>, descriptions: &Vec<String>, include_description: bool) -> (r:
    Vec<String>)
    ensures
        texts(r@) == (if include_description {
            texts(usual@) + texts(descriptions@)
        } else {
            texts(usual@)
        }),
{
    let mut fields: Vec<String> = crate::text::copy_list(usual);
    if include_description {
        let mut more: Vec<String> = crate::text::copy_list(descriptions);
        let ghost before = fields@;
        fields.append(&mut more);
        assert(texts(fields@) =~= texts(usual@) + texts(descriptions@));
    }
    fields
}

/// What is asked for: change requests or stories.
#[allow(inconsistent_fields)]
pub enum RecordPageRequest {
    ChangeRequest { filters: ChangeRequestQueryFilters, limit: u32, cursor: Option<String> },
    Story {
        filters: StoryQueryFilters,
        include_description: bool,
        limit: u32,
        cursor: Option<String>,
    },
}

/// The fields that pages of each kind read.
pub struct RecordPageFields {
    pub change_request: Vec<String>,
    pub story: Vec<String>,
    pub story_description: Vec<String>,
}

/// The table whose state choices a request needs before it can be sent.
pub fn choices_needed(request: &RecordPageRequest) -> (r: Option<&'static str>)
    ensures
        match request {
            RecordPageRequest::ChangeRequest { filters, .. } => match r {
                Some(t) => filters.state is Some && t@ == "change_request"@,
                None => filters.state is None,
            },
            RecordPageRequest::Story { filters, .. } => match r {
                Some(t) => filters.states is Some && t@ == "rm_story"@,
                None => filters.states is None,
            },
        },
{
    match request {
        RecordPageRequest::ChangeRequest { filters, .. } => if filters.state.is_some() {
            Some("change_request")
        } else {
            None
        },
        RecordPageRequest::Story { filters, .. } => if filters.states.is_some() {
            Some("rm_story")
        } else {
            None
        },
    }
}

/// What a request becomes: its query, or the refusal of a state that the
/// choices do not settle.
pub open spec fn plan_of(
    request: RecordPageRequest,
    fields: RecordPageFields,
    choices: Seq<FieldChoice>,
    r: Result<Query, RecordQueryError>,
) -> bool {
    match request {
        RecordPageRequest::ChangeRequest { filters, limit, cursor } => {
            let hits = meant(choice_views(choices), filters.state->0@);
            if filters.state is Some && hits.len() != 1 {
                r is Err && is_unresolved(
                    r->Err_0,
                    filters.state->0@,
                    "change_request"@,
                    hits.len() > 1,
                    choices,
                )
            } else {
                r is Ok && r->Ok_0@ == change_plan_of(
                    filters,
                    if filters.state is Some {
                        Some(hits[0].value)
                    } else {
                        None
                    },
                    texts(fields.change_request@),
                    limit,
                    text_of(cursor),
                )
            }
        },
        RecordPageRequest::Story { filters, include_description, limit, cursor } => {
            let wanted = if include_description {
                texts(fields.story@) + texts(fields.story_description@)
            } else {
                texts(fields.story@)
            };
            match filters.states {
                None => r is Ok && r->Ok_0@ == story_plan_of(
                    filters,
                    None,
                    wanted,
                    limit,
                    text_of(cursor),
                ),
                Some(selectors) => match crate::incident::states_of(
                    texts(selectors@),
                    choice_views(choices),
                ) {
                    Err(refusal) => r is Err && is_unresolved(
                        r->Err_0,
                        refusal.requested,
                        "rm_story"@,
                        refusal.ambiguous,
                        choices,
                    ),
                    Ok(values) => r is Ok && r->Ok_0@ == story_plan_of(
                        filters,
                        Some(values),
                        wanted,
                        limit,
                        text_of(cursor),
                    ),
                },
            }
        },
    }
}

/// Turns a request into its query. `choices` are the choices of the table that
/// [`choices_needed`] named.
pub fn record_plan(
    request: &RecordPageRequest,
    fields: &RecordPageFields,
    choices: &Vec<FieldChoice>,
) -> (r: Result<Query, RecordQueryError>)
    ensures
        plan_of(*request, *fields, choices@, r),
{
    match request {
        RecordPageRequest::ChangeRequest { filters, limit, cursor } => {
            let state: Option<String> = match &filters.state {
                Some(selector) => match resolve_record_query_state(
                    selector.as_str(),
                    "change_request",
                    choices,
                ) {
                    Ok(v) => Some(v),
                    Err(e) => return Err(e),
                },
                None => None,
            };
            Ok(change_plan(filters, &state, &fields.change_request, *limit, cursor))
        },
        RecordPageRequest::Story { filters, include_description, limit, cursor } => {
            let wanted: Vec<String> = story_fields(
                &fields.story,
                &fields.story_description,
                *include_description,
            );
            let states: Option<Vec<String>> = match &filters.states {
                Some(selectors) => match resolve_story_states(selectors, choices) {
                    Ok(v) => Some(v),
                    Err(e) => return Err(e),
                },
                None => None,
            };
            Ok(story_plan(filters, &states, &wanted, *limit, cursor))
        },
    }
}

/// A page of records, and where it stands.
pub struct RecordQueryPage {
    pub rows: Vec<Row>,
    pub mark: PageMark,
    pub limit: usize,
}

pub fn record_page(rows: Vec<Row>, limit: usize) -> (r: RecordQueryPage)
    ensures
        r.rows == rows,
        r.limit == limit,
        marks(r.mark, row_views(rows@), limit as int),
{
    let mark: PageMark = page_mark(&rows, limit);
    RecordQueryPage { rows, mark, limit }
}

/// The query for a page of the tasks of one change request.
pub open spec fn change_tasks_plan_of(
    number: Seq<char>,
    fields: Seq<Seq<char>>,
    limit: u32,
    cursor: Option<Seq<char>>,
) -> QueryView {
    QueryView::of("change_task"@).fields(fields).display(DisplayMode::Both).no_links().ascending(
        "sys_id"@,
    ).limit(limit).equals("change_request.number"@, number).when_given(
        "sys_id"@,
        Operator::GreaterThan,
        cursor,
    )
}

pub fn change_tasks_plan(number: &str, fields: &Vec<String>, limit: u32, cursor: &Option<String>) -> (q:
    Query)
    ensures
        q@ == change_tasks_plan_of(number@, texts(fields@), limit, text_of(*cursor)),
{
    Query::of("change_task").fields(fields).display(DisplayMode::Both).no_links().ascending(
        "sys_id",
    ).limit(limit).equals("change_request.number", number).when_given(
        "sys_id",
        Operator::GreaterThan,
        cursor,
    )
}

// --- resource plans ---

pub const RESOURCE_PLAN_LIST_FIELDS: [&'static str; 16] = [
    "sys_id",
    "number",
    "short_description",
    "state",
    "task",
    "resource_type",
    "user_resource",
    "group_resource",
    "start_date",
    "end_date",
    "planned_hours",
    "allocated_hours",
    "confirmed_hours",
    "notes",
    "u_description",
    "sys_updated_on",
];

pub const RESOURCE_PLAN_LIST_DOT_WALK: [&'static str; 2] = ["task.number", "task.sys_class_name"];

#[derive(Clone, Copy, Debug, PartialEq, Eq, Structural)]
pub enum ResourcePlanResourceType {
    Group,
    User,
}

impl ResourcePlanResourceType {
    pub open spec fn name(self) -> Seq<char> {
        match self {
            ResourcePlanResourceType::Group => "group"@,
            ResourcePlanResourceType::User => "user"@,
        }
    }

    pub fn as_snow_str(&self) -> (r: &'static str)
        ensures
            r@ == self.name(),
    {
        match self {
            ResourcePlanResourceType::Group => "group",
            ResourcePlanResourceType::User => "user",
        }
    }
}

/// Whose plans are listed.
pub enum ResolvedResourceFilter {
    Group(String),
    User(String),
    TypeOnly(ResourcePlanResourceType),
    Anyone,
}

pub open spec fn resource_condition(q: QueryView, resource: ResolvedResourceFilter) -> QueryView {
    match resource {
        ResolvedResourceFilter::Group(id) => q.equals("group_resource"@, id@),
        ResolvedResourceFilter::User(id) => q.equals("user_resource"@, id@),
        ResolvedResourceFilter::TypeOnly(t) => q.equals("resource_type"@, t.name()),
        ResolvedResourceFilter::Anyone => q,
    }
}

/// The kind of resource that a filter settles.
pub open spec fn type_hint_of(resource: ResolvedResourceFilter) -> Option<ResourcePlanResourceType> {
    match resource {
        ResolvedResourceFilter::Group(_) => Some(ResourcePlanResourceType::Group),
        ResolvedResourceFilter::User(_) => Some(ResourcePlanResourceType::User),
        ResolvedResourceFilter::TypeOnly(t) => Some(t),
        ResolvedResourceFilter::Anyone => None,
    }
}

pub open spec fn states_condition(q: QueryView, states: Seq<Seq<char>>) -> QueryView {
    if states.len() == 0 {
        q
    } else {
        q.one_of("state"@, states)
    }
}

pub open spec fn resource_plan_query_of(
    task: Option<Seq<char>>,
    resource: ResolvedResourceFilter,
    states: Seq<Seq<char>>,
    limit: u32,
) -> QueryView {
    let base = QueryView::of("resource_plan"@).fields(
        crate::text::names_of(RESOURCE_PLAN_LIST_FIELDS@),
    ).walk(crate::text::names_of(RESOURCE_PLAN_LIST_DOT_WALK@)).display(
        DisplayMode::Both,
    ).no_links().ascending("number"@).limit(limit).when_given("task"@, Operator::Equals, task);
    states_condition(resource_condition(base, resource), states)
}

/// The query for a list of resource plans, and the kind of resource it settles.
pub fn resource_plan_query(
    task: &Option<String>,
    resource: &ResolvedResourceFilter,
    states: &Vec<String>,
    limit: u32,
) -> (r: (Query, Option<ResourcePlanResourceType>))
    ensures
        r.0@ == resource_plan_query_of(text_of(*task), *resource, texts(states@), limit),
        r.1 == type_hint_of(*resource),
{
    let fields: Vec<String> = crate::text::strings_of(&RESOURCE_PLAN_LIST_FIELDS);
    let walk: Vec<String> = crate::text::strings_of(&RESOURCE_PLAN_LIST_DOT_WALK);
    let base: Query = Query::of("resource_plan").fields(&fields).walk(&walk).display(
        DisplayMode::Both,
    ).no_links().ascending("number").limit(limit).when_given("task", Operator::Equals, task);
    let (scoped, hint): (Query, Option<ResourcePlanResourceType>) = match resource {
        ResolvedResourceFilter::Group(id) => (
            base.equals("group_resource", id.as_str()),
            Some(ResourcePlanResourceType::Group),
        ),
        ResolvedResourceFilter::User(id) => (
            base.equals("user_resource", id.as_str()),
            Some(ResourcePlanResourceType::User),
        ),
        ResolvedResourceFilter::TypeOnly(t) => (
            base.equals("resource_type", t.as_snow_str()),
            Some(*t),
        ),
        ResolvedResourceFilter::Anyone => (base, None),
    };
    let q: Query = if states.is_empty() {
        scoped
    } else {
        scoped.one_of("state", states)
    };
    (q, hint)
}

/// How much of a list of resource plans came back. A list that fills its limit
/// may have been cut.
pub struct ResourcePlanSummary {
    pub total_returned: usize,
    pub limit: usize,
    pub truncated: bool,
}

pub fn resource_plan_summary(rows: &Vec<Row>, limit: usize) -> (r: ResourcePlanSummary)
    ensures
        r.total_returned == rows@.len(),
        r.limit == limit,
        r.truncated == (rows@.len() == limit),
{
    let total: usize = rows.len();
    ResourcePlanSummary { total_returned: total, limit, truncated: total == limit }
}

/// The query for the record that a resource plan belongs to, by its number. Only
/// demands and projects have resource plans.
pub fn plan_parent_query(number: &str) -> (r: Result<Query, String>)
    ensures
        match r {
            Ok(q) => plan_parent_table(number@) is Some && q@ == QueryView::of(
                plan_parent_table(number@)->0,
            ).equals("number"@, number@).limit(1),
            Err(e) => plan_parent_table(number@) is None && e@
                == "parent_number must start with DMND or PRJ"@,
        },
{
    match resource_plan_parent_table_for_number(number) {
        Some(table) => Ok(Query::of(table).equals("number", number).limit(1)),
        None => Err("parent_number must start with DMND or PRJ".to_owned()),
    }
}

/// The id of the record that a resource plan belongs to.
pub fn plan_parent_id(number: &str, found: Option<&Row>) -> (r: Result<String, String>)
    ensures
        match found {
            Some(row) => r == Ok::<String, String>(row.sys_id),
            None => r is Err && r->Err_0@ == "resource_plan parent "@ + number@
                + " was not found"@,
        },
{
    match found {
        Some(row) => Ok(row.sys_id.clone()),
        None => Err(joined3("resource_plan parent ", number, " was not found")),
    }
}

} // verus!
