//! Laws of the pages of change requests, stories, change tasks and resource plans: which
//! requests are accepted, and what they ask for.
use vstd::prelude::*;

use crate::choices::{choice_views, meant, FieldChoice};
use crate::incident::PageLimits;
use crate::incident_laws::{is_id, is_range};
use crate::listing::{lemma_distinct_pass, pass, read_apart};
use crate::page_input::{
    change_read, change_refusal, number_with, place_refusal, request_read, request_refusal,
    resource_read, resource_refusal, story_number_step, story_numbers, story_read, story_refusal,
    story_state_step, story_states, task_read, task_refusal, RecordQueryInput, TaskSelector,
    RECORD_QUERY_DEFAULT_LIMIT, RECORD_QUERY_MAX_LIMIT,
};
use crate::query::{DisplayMode, Operator, Query, QueryView, SortKeyView};
use crate::record_query::{
    behind, change_plan_of, change_tasks_plan_of, list_of, one_of_given, page_of, plan_of, resource_plan_query_of, story_plan_of,
    type_hint_of, ChangeRequestQueryFilters, RecordPageFields, RecordPageRequest, RecordQueryError,
    ResolvedResourceFilter, ResourcePlanResourceType, StoryQueryFilters,
    RESOURCE_PLAN_LIST_DOT_WALK, RESOURCE_PLAN_LIST_FIELDS,
};
use crate::selection::{among, group_selection, selects, Held};
use crate::tables::{plan_parent_table, sys_id_of};
use crate::text::{
    has_text, is_digit, lower, names_of, same_ignoring_case, text_less, text_of, texts, trim,
    upper,
};

verus! {

/// Whether a value is one of those given: the only one, or one of several.
pub open spec fn is_one_of(held: Seq<char>, values: Seq<Seq<char>>) -> bool {
    if values.len() == 1 {
        held == values[0]
    } else {
        among(held, values)
    }
}

/// The page of change requests asks for those that meet every filter that was given,
/// each on its own field, behind the cursor.
pub proof fn change_pages_ask_for_what_was_given(
    f: ChangeRequestQueryFilters,
    state: Option<Seq<char>>,
    fields: Seq<Seq<char>>,
    limit: u32,
    cursor: Option<Seq<char>>,
    held: Held,
)
    ensures
        ({
            let q = change_plan_of(f, state, fields, limit, cursor);
            &&& selects(q, held) <==> {
                &&& f.assignment_group is Some ==> held("assignment_group"@)
                    == f.assignment_group->0@
                &&& f.assigned_to is Some ==> held("assigned_to"@) == f.assigned_to->0@
                &&& state is Some ==> held("state"@) == state->0
                &&& f.start_date_after is Some ==> text_less(
                    f.start_date_after->0@,
                    held("start_date"@),
                )
                &&& f.start_date_before is Some ==> text_less(
                    held("start_date"@),
                    f.start_date_before->0@,
                )
                &&& cursor is Some ==> text_less(cursor->0, held("sys_id"@))
            }
            &&& q.table == "change_request"@
            &&& q.fields == fields
            &&& q.order == seq![SortKeyView { field: "sys_id"@, descending: false }]
            &&& q.limit == Some(limit)
            &&& q.offset is None
            &&& q.display == DisplayMode::Both
            &&& q.without_links
        }),
{
    broadcast use group_selection;

    reveal(change_plan_of);
    let q = change_plan_of(f, state, fields, limit, cursor);
    assert(q.fields =~= fields);
    assert(q.order =~= seq![SortKeyView { field: "sys_id"@, descending: false }]);
}

#[verifier::opaque]
spec fn with_people(q: QueryView, f: StoryQueryFilters) -> QueryView {
    q.when_given("assignment_group"@, Operator::Equals, text_of(f.assignment_group)).when_given(
        "assigned_to"@,
        Operator::Equals,
        text_of(f.assigned_to),
    ).when_given("u_story_owner"@, Operator::Equals, text_of(f.story_owner)).when_given(
        "u_lead_dev"@,
        Operator::Equals,
        text_of(f.lead_developer),
    )
}

#[verifier::opaque]
spec fn with_scope(
    q: QueryView,
    f: StoryQueryFilters,
    states: Option<Seq<Seq<char>>>,
) -> QueryView {
    one_of_given(q, "state"@, states).when_given(
        "sprint"@,
        Operator::Equals,
        text_of(f.sprint),
    ).when_given("project"@, Operator::Equals, text_of(f.project)).when_given(
        "cmdb_ci"@,
        Operator::Equals,
        text_of(f.cmdb_ci),
    )
}

#[verifier::opaque]
spec fn with_times(q: QueryView, f: StoryQueryFilters) -> QueryView {
    q.flag("blocked"@, f.blocked).when_given(
        "due_date"@,
        Operator::GreaterThan,
        text_of(f.due_date_after),
    ).when_given("due_date"@, Operator::LessThan, text_of(f.due_date_before)).when_given(
        "sys_updated_on"@,
        Operator::GreaterThan,
        text_of(f.updated_after),
    )
}

#[verifier::opaque]
spec fn with_texts(q: QueryView, f: StoryQueryFilters, cursor: Option<Seq<char>>) -> QueryView {
    behind(
        one_of_given(q, "number"@, list_of(f.numbers)).when_given(
            "short_description"@,
            Operator::Contains,
            text_of(f.text),
        ),
        cursor,
    )
}

spec fn narrows(r: QueryView, q: QueryView) -> bool {
    r == QueryView { conditions: r.conditions, ..q }
}

proof fn lemma_people(q: QueryView, f: StoryQueryFilters, held: Held)
    ensures
        selects(with_people(q, f), held) <==> {
            &&& selects(q, held)
            &&& f.assignment_group is Some ==> held("assignment_group"@) == f.assignment_group->0@
            &&& f.assigned_to is Some ==> held("assigned_to"@) == f.assigned_to->0@
            &&& f.story_owner is Some ==> held("u_story_owner"@) == f.story_owner->0@
            &&& f.lead_developer is Some ==> held("u_lead_dev"@) == f.lead_developer->0@
        },
        narrows(with_people(q, f), q),
{
    broadcast use group_selection;

    reveal(with_people);
}

proof fn lemma_scope(
    q: QueryView,
    f: StoryQueryFilters,
    states: Option<Seq<Seq<char>>>,
    held: Held,
)
    ensures
        selects(with_scope(q, f, states), held) <==> {
            &&& selects(q, held)
            &&& states is Some ==> is_one_of(held("state"@), states->0)
            &&& f.sprint is Some ==> held("sprint"@) == f.sprint->0@
            &&& f.project is Some ==> held("project"@) == f.project->0@
            &&& f.cmdb_ci is Some ==> held("cmdb_ci"@) == f.cmdb_ci->0@
        },
        narrows(with_scope(q, f, states), q),
{
    broadcast use group_selection;

    reveal(with_scope);
}

proof fn lemma_times(q: QueryView, f: StoryQueryFilters, held: Held)
    ensures
        selects(with_times(q, f), held) <==> {
            &&& selects(q, held)
            &&& f.blocked == Some(true) ==> held("blocked"@) == "true"@
            &&& f.blocked == Some(false) ==> held("blocked"@) == "false"@
            &&& f.due_date_after is Some ==> text_less(f.due_date_after->0@, held("due_date"@))
            &&& f.due_date_before is Some ==> text_less(held("due_date"@), f.due_date_before->0@)
            &&& f.updated_after is Some ==> text_less(f.updated_after->0@, held("sys_updated_on"@))
        },
        narrows(with_times(q, f), q),
{
    broadcast use group_selection;

    reveal(with_times);
}

proof fn lemma_texts(q: QueryView, f: StoryQueryFilters, cursor: Option<Seq<char>>, held: Held)
    ensures
        selects(with_texts(q, f, cursor), held) <==> {
            &&& selects(q, held)
            &&& f.numbers is Some ==> is_one_of(held("number"@), texts(f.numbers->0@))
            &&& f.text is Some ==> has_text(held("short_description"@), f.text->0@)
            &&& cursor is Some ==> text_less(cursor->0, held("sys_id"@))
        },
        narrows(
            with_texts(q, f, cursor),
            QueryView {
                order: q.order.push(SortKeyView { field: "sys_id"@, descending: false }),
                ..q
            },
        ),
{
    broadcast use group_selection;

    reveal(with_texts);
}

/// The page of stories asks for those that meet every filter that was given, each on its
/// own field, behind the cursor; they come by their ids, as many as the page holds.
pub proof fn story_pages_ask_for_what_was_given(
    f: StoryQueryFilters,
    states: Option<Seq<Seq<char>>>,
    fields: Seq<Seq<char>>,
    limit: u32,
    cursor: Option<Seq<char>>,
    held: Held,
)
    ensures
        selects(story_plan_of(f, states, fields, limit, cursor), held) <==> {
            &&& f.assignment_group is Some ==> held("assignment_group"@) == f.assignment_group->0@
            &&& f.assigned_to is Some ==> held("assigned_to"@) == f.assigned_to->0@
            &&& f.story_owner is Some ==> held("u_story_owner"@) == f.story_owner->0@
            &&& f.lead_developer is Some ==> held("u_lead_dev"@) == f.lead_developer->0@
            &&& states is Some ==> is_one_of(held("state"@), states->0)
            &&& f.sprint is Some ==> held("sprint"@) == f.sprint->0@
            &&& f.project is Some ==> held("project"@) == f.project->0@
            &&& f.cmdb_ci is Some ==> held("cmdb_ci"@) == f.cmdb_ci->0@
            &&& f.blocked == Some(true) ==> held("blocked"@) == "true"@
            &&& f.blocked == Some(false) ==> held("blocked"@) == "false"@
            &&& f.due_date_after is Some ==> text_less(f.due_date_after->0@, held("due_date"@))
            &&& f.due_date_before is Some ==> text_less(held("due_date"@), f.due_date_before->0@)
            &&& f.updated_after is Some ==> text_less(f.updated_after->0@, held("sys_updated_on"@))
            &&& f.numbers is Some ==> is_one_of(held("number"@), texts(f.numbers->0@))
            &&& f.text is Some ==> has_text(held("short_description"@), f.text->0@)
            &&& cursor is Some ==> text_less(cursor->0, held("sys_id"@))
        },
        ({
            let q = story_plan_of(f, states, fields, limit, cursor);
            &&& q.table == "rm_story"@
            &&& q.fields == fields
            &&& q.order == seq![SortKeyView { field: "sys_id"@, descending: false }]
            &&& q.limit == Some(limit)
            &&& q.offset is None
            &&& q.display == DisplayMode::Both
            &&& q.without_links
        }),
{
    let base = page_of("rm_story"@, fields, limit);
    let people = with_people(base, f);
    let scope = with_scope(people, f, states);
    let times = with_times(scope, f);
    let q = with_texts(times, f, cursor);
    assert(story_plan_of(f, states, fields, limit, cursor) == q) by {
        reveal(story_plan_of);
        reveal(with_people);
        reveal(with_scope);
        reveal(with_times);
        reveal(with_texts);
    }
    lemma_people(base, f, held);
    lemma_scope(people, f, states, held);
    lemma_times(scope, f, held);
    lemma_texts(times, f, cursor, held);
    assert(selects(base, held)) by {
        broadcast use group_selection;

    }
    assert(base.fields =~= fields);
    assert(q.order =~= seq![SortKeyView { field: "sys_id"@, descending: false }]);
}

/// The page of a change's tasks asks for those of the change with that number.
pub proof fn task_pages_ask_for_their_change(
    number: Seq<char>,
    fields: Seq<Seq<char>>,
    limit: u32,
    cursor: Option<Seq<char>>,
    held: Held,
)
    ensures
        ({
            let q = change_tasks_plan_of(number, fields, limit, cursor);
            &&& selects(q, held) <==> held("change_request.number"@) == number && (cursor is Some
                ==> text_less(cursor->0, held("sys_id"@)))
            &&& q.table == "change_task"@
            &&& q.fields == fields
            &&& q.order == seq![SortKeyView { field: "sys_id"@, descending: false }]
            &&& q.limit == Some(limit)
            &&& q.display == DisplayMode::Both
            &&& q.without_links
        }),
{
    broadcast use group_selection;

    let q = change_tasks_plan_of(number, fields, limit, cursor);
    assert(q.fields =~= fields);
    assert(q.order =~= seq![SortKeyView { field: "sys_id"@, descending: false }]);
}

/// The list of resource plans asks for those of the task, of the group or user or kind of
/// resource, and of the states that were given.
pub proof fn plan_lists_ask_for_what_was_given(
    task: Option<Seq<char>>,
    resource: ResolvedResourceFilter,
    states: Seq<Seq<char>>,
    limit: u32,
    held: Held,
)
    ensures
        ({
            let q = resource_plan_query_of(task, resource, states, limit);
            &&& selects(q, held) <==> {
                &&& task is Some ==> held("task"@) == task->0
                &&& resource is Group ==> held("group_resource"@) == resource->Group_0@
                &&& resource is User ==> held("user_resource"@) == resource->User_0@
                &&& resource == ResolvedResourceFilter::TypeOnly(ResourcePlanResourceType::Group)
                    ==> held("resource_type"@) == "group"@
                &&& resource == ResolvedResourceFilter::TypeOnly(ResourcePlanResourceType::User)
                    ==> held("resource_type"@) == "user"@
                &&& states.len() > 0 ==> is_one_of(held("state"@), states)
            }
            &&& q.table == "resource_plan"@
            &&& q.fields == names_of(RESOURCE_PLAN_LIST_FIELDS@)
            &&& q.dot_walk == names_of(RESOURCE_PLAN_LIST_DOT_WALK@)
            &&& q.order == seq![SortKeyView { field: "number"@, descending: false }]
            &&& q.limit == Some(limit)
            &&& q.display == DisplayMode::Both
            &&& q.without_links
        }),
{
    broadcast use group_selection;

    let q = resource_plan_query_of(task, resource, states, limit);
    assert(q.fields =~= names_of(RESOURCE_PLAN_LIST_FIELDS@));
    assert(q.dot_walk =~= names_of(RESOURCE_PLAN_LIST_DOT_WALK@));
    assert(q.order =~= seq![SortKeyView { field: "number"@, descending: false }]);
}

/// What is read of a resource plan.
pub proof fn plans_are_read_with_their_task()
    ensures
        RESOURCE_PLAN_LIST_FIELDS@.len() == 16,
        RESOURCE_PLAN_LIST_FIELDS@[0]@ == "sys_id"@,
        RESOURCE_PLAN_LIST_FIELDS@[1]@ == "number"@,
        RESOURCE_PLAN_LIST_FIELDS@[2]@ == "short_description"@,
        RESOURCE_PLAN_LIST_FIELDS@[3]@ == "state"@,
        RESOURCE_PLAN_LIST_FIELDS@[4]@ == "task"@,
        RESOURCE_PLAN_LIST_FIELDS@[5]@ == "resource_type"@,
        RESOURCE_PLAN_LIST_FIELDS@[6]@ == "user_resource"@,
        RESOURCE_PLAN_LIST_FIELDS@[7]@ == "group_resource"@,
        RESOURCE_PLAN_LIST_FIELDS@[8]@ == "start_date"@,
        RESOURCE_PLAN_LIST_FIELDS@[9]@ == "end_date"@,
        RESOURCE_PLAN_LIST_FIELDS@[10]@ == "planned_hours"@,
        RESOURCE_PLAN_LIST_FIELDS@[11]@ == "allocated_hours"@,
        RESOURCE_PLAN_LIST_FIELDS@[12]@ == "confirmed_hours"@,
        RESOURCE_PLAN_LIST_FIELDS@[13]@ == "notes"@,
        RESOURCE_PLAN_LIST_FIELDS@[14]@ == "u_description"@,
        RESOURCE_PLAN_LIST_FIELDS@[15]@ == "sys_updated_on"@,
        RESOURCE_PLAN_LIST_DOT_WALK@.len() == 2,
        RESOURCE_PLAN_LIST_DOT_WALK@[0]@ == "task.number"@,
        RESOURCE_PLAN_LIST_DOT_WALK@[1]@ == "task.sys_class_name"@,
{
}

/// A filter settles the kind of resource that it names.
pub proof fn filters_settle_the_kind_of_resource(resource: ResolvedResourceFilter)
    ensures
        type_hint_of(resource) is None <==> resource is Anyone,
        resource is Group ==> type_hint_of(resource) == Some(ResourcePlanResourceType::Group),
        resource is User ==> type_hint_of(resource) == Some(ResourcePlanResourceType::User),
        resource is TypeOnly ==> type_hint_of(resource) == Some(resource->TypeOnly_0),
{
}

/// A number in its usual spelling is its prefix in capitals and digits behind it, at least
/// one, without blanks around.
pub proof fn numbers_are_a_prefix_and_digits(s: Seq<char>, prefix: Seq<char>)
    ensures
        number_with(s, prefix) is Some <==> {
            let n = upper(trim(s));
            &&& n.len() > prefix.len()
            &&& n.subrange(0, prefix.len() as int) == prefix
            &&& forall|i: int| prefix.len() <= i < n.len() ==> '0' <= #[trigger] n[i] <= '9'
        },
        number_with(s, prefix) is Some ==> number_with(s, prefix)->0 == upper(trim(s)),
{
    let n = upper(trim(s));
    if n.len() > prefix.len() && (forall|i: int|
        prefix.len() <= i < n.len() ==> '0' <= #[trigger] n[i] <= '9') {
        assert forall|i: int| prefix.len() <= i < n.len() implies is_digit(#[trigger] n[i]) by {
        }
    }
    if crate::page_input::is_number_with(n, prefix) {
        assert forall|i: int| prefix.len() <= i < n.len() implies '0' <= #[trigger] n[i] <= '9' by {
            assert(is_digit(n[i]));
        }
    }
}

/// A list of story numbers is accepted where it holds something, each is a story number
/// and none comes twice.
pub proof fn story_numbers_are_distinct(values: Option<Vec<String>>)
    ensures
        values is None ==> story_numbers(values) == Ok::<Option<Seq<Seq<char>>>, Seq<char>>(None),
        values is Some ==> (story_numbers(values) is Ok <==> values->0@.len() > 0 && read_apart(
            texts(values->0@),
            |v: Seq<char>| number_with(v, "STRY"@),
        )),
        values is Some && story_numbers(values) is Ok ==> {
            let taken = story_numbers(values)->Ok_0;
            &&& taken is Some
            &&& taken->0.len() == values->0@.len()
            &&& forall|i: int|
                0 <= i < taken->0.len() ==> Some(#[trigger] taken->0[i]) == number_with(
                    values->0@[i]@,
                    "STRY"@,
                )
        },
{
    if values is Some {
        let list = texts(values->0@);
        let read = |v: Seq<char>| number_with(v, "STRY"@);
        lemma_distinct_pass(list, story_number_step(), read);
        if story_numbers(values) is Ok {
            let taken = pass(list, Seq::empty(), story_number_step())->Ok_0;
            assert forall|i: int| 0 <= i < taken.len() implies Some(#[trigger] taken[i])
                == number_with(values->0@[i]@, "STRY"@) by {
                assert(Some(taken[i]) == read(list[i]));
            }
        }
    }
}

/// Whether each of the texts is something, and no two are the same in any case.
pub open spec fn named_apart(list: Seq<Seq<char>>) -> bool {
    &&& forall|i: int| 0 <= i < list.len() ==> trim(#[trigger] list[i]).len() > 0
    &&& forall|i: int, j: int|
        0 <= i < j < list.len() ==> lower(trim(#[trigger] list[i])) != lower(
            trim(#[trigger] list[j]),
        )
}

proof fn lemma_named_apart(list: Seq<Seq<char>>)
    ensures
        pass(list, Seq::empty(), story_state_step()) is Ok <==> named_apart(list),
        pass(list, Seq::empty(), story_state_step()) is Ok ==> {
            let taken = pass(list, Seq::empty(), story_state_step())->Ok_0;
            taken.len() == list.len() && forall|i: int|
                0 <= i < taken.len() ==> #[trigger] taken[i] == trim(list[i])
        },
    decreases list.len(),
{
    if list.len() > 0 {
        let front = list.drop_last();
        let n = list.len() - 1;
        lemma_named_apart(front);
        let r = pass(list, Seq::empty(), story_state_step());
        if named_apart(list) {
            assert forall|i: int| 0 <= i < front.len() implies trim(#[trigger] front[i]).len() > 0 by {
                assert(front[i] == list[i]);
            }
            assert forall|i: int, j: int| 0 <= i < j < front.len() implies lower(
                trim(#[trigger] front[i]),
            ) != lower(trim(#[trigger] front[j])) by {
                assert(front[i] == list[i] && front[j] == list[j]);
            }
            let taken = pass(front, Seq::empty(), story_state_step())->Ok_0;
            if crate::page_input::named_already(taken, trim(list[n])) {
                let i = choose|i: int|
                    0 <= i < taken.len() && same_ignoring_case(#[trigger] taken[i], trim(list[n]));
                crate::text_laws::case_does_not_count(taken[i], trim(list[n]));
                assert(taken[i] == trim(front[i]));
                assert(front[i] == list[i]);
                assert(lower(trim(list[i])) != lower(trim(list[n])));
            }
            assert(trim(list[n]).len() > 0);
        }
        if r is Ok {
            let taken = pass(front, Seq::empty(), story_state_step())->Ok_0;
            assert forall|i: int| 0 <= i < list.len() implies trim(#[trigger] list[i]).len() > 0 by {
                if i < n {
                    assert(front[i] == list[i]);
                }
            }
            assert forall|i: int, j: int| 0 <= i < j < list.len() implies lower(
                trim(#[trigger] list[i]),
            ) != lower(trim(#[trigger] list[j])) by {
                assert(front[i] == list[i]);
                if j < n {
                    assert(front[j] == list[j]);
                } else {
                    assert(taken[i] == trim(front[i]));
                    crate::text_laws::case_does_not_count(taken[i], trim(list[n]));
                    assert(!same_ignoring_case(taken[i], trim(list[n])));
                }
            }
            assert forall|i: int| 0 <= i < r->Ok_0.len() implies #[trigger] r->Ok_0[i] == trim(
                list[i],
            ) by {
                if i < n {
                    assert(r->Ok_0[i] == taken[i]);
                    assert(front[i] == list[i]);
                }
            }
        }
    }
}

/// A list of states is accepted where it holds something, none is blank and no two are the
/// same in any case; the blanks around them are taken off.
pub proof fn story_states_are_distinct(values: Option<Vec<String>>)
    ensures
        values is None ==> story_states(values) == Ok::<Option<Seq<Seq<char>>>, Seq<char>>(None),
        values is Some ==> (story_states(values) is Ok <==> values->0@.len() > 0 && named_apart(
            texts(values->0@),
        )),
        values is Some && story_states(values) is Ok ==> {
            let taken = story_states(values)->Ok_0;
            &&& taken is Some
            &&& taken->0.len() == values->0@.len()
            &&& forall|i: int|
                0 <= i < taken->0.len() ==> #[trigger] taken->0[i] == trim(values->0@[i]@)
        },
{
    if values is Some {
        lemma_named_apart(texts(values->0@));
    }
}

/// A page may begin behind a sys_id and hold from one to the greatest number of records.
pub proof fn places_are_within_bounds(
    limit: Option<usize>,
    cursor: Option<String>,
    limits: PageLimits,
)
    ensures
        place_refusal(limit, cursor, limits) is None <==> {
            &&& is_id(cursor)
            &&& limit is Some ==> 1 <= limit->0 <= limits.max_limit
            &&& limit is None ==> 1 <= limits.default_limit <= limits.max_limit
        },
{
}

/// A filter on change requests is accepted where its ids are sys_ids and its range of time
/// is not empty; it is taken as it was given, each part in its own place.
pub proof fn change_filters_are_taken_as_given(
    f: ChangeRequestQueryFilters,
    g: ChangeRequestQueryFilters,
)
    ensures
        change_refusal(f) is None <==> is_id(f.assignment_group) && is_id(f.assigned_to)
            && is_range(f.start_date_after, f.start_date_before),
        change_read(f, g) ==> {
            &&& g.assignment_group is Some <==> f.assignment_group is Some
            &&& g.assignment_group is Some ==> Some(g.assignment_group->0@) == sys_id_of(
                f.assignment_group->0@,
            )
            &&& g.assigned_to is Some <==> f.assigned_to is Some
            &&& g.assigned_to is Some ==> Some(g.assigned_to->0@) == sys_id_of(f.assigned_to->0@)
            &&& g.state is Some <==> f.state is Some
            &&& g.state is Some ==> g.state->0@ == trim(f.state->0@)
            &&& g.start_date_after == f.start_date_after
            &&& g.start_date_before == f.start_date_before
        },
{
}

/// An id that was read is the one that was given, in its usual spelling.
pub open spec fn same_id(given: Option<String>, read: Option<String>) -> bool {
    &&& read is Some <==> given is Some
    &&& read is Some ==> Some(read->0@) == sys_id_of(given->0@)
}

/// A filter on stories is accepted where its ids are sys_ids, its lists can be read and its
/// range of time is not empty; it is taken as it was given, each part in its own place.
pub proof fn story_filters_are_taken_as_given(f: StoryQueryFilters, g: StoryQueryFilters)
    ensures
        story_refusal(f) is None <==> {
            &&& is_id(f.assignment_group)
            &&& is_id(f.assigned_to)
            &&& is_id(f.story_owner)
            &&& is_id(f.lead_developer)
            &&& is_id(f.sprint)
            &&& is_id(f.project)
            &&& is_id(f.cmdb_ci)
            &&& story_states(f.states) is Ok
            &&& story_numbers(f.numbers) is Ok
            &&& is_range(f.due_date_after, f.due_date_before)
        },
        story_read(f, g) ==> {
            &&& same_id(f.assignment_group, g.assignment_group)
            &&& same_id(f.assigned_to, g.assigned_to)
            &&& same_id(f.story_owner, g.story_owner)
            &&& same_id(f.lead_developer, g.lead_developer)
            &&& same_id(f.sprint, g.sprint)
            &&& same_id(f.project, g.project)
            &&& same_id(f.cmdb_ci, g.cmdb_ci)
            &&& g.states is Some <==> f.states is Some
            &&& g.states is Some ==> story_states(f.states)->Ok_0 == Some(texts(g.states->0@))
            &&& g.numbers is Some <==> f.numbers is Some
            &&& g.numbers is Some ==> story_numbers(f.numbers)->Ok_0 == Some(texts(g.numbers->0@))
            &&& g.blocked == f.blocked
            &&& g.due_date_after == f.due_date_after
            &&& g.due_date_before == f.due_date_before
            &&& g.updated_after == f.updated_after
            &&& g.text is Some <==> f.text is Some
            &&& g.text is Some ==> g.text->0@ == trim(f.text->0@)
        },
{
}

/// A request for change requests or stories is accepted where its filters are and its page
/// holds from one to two hundred records, fifty where nothing is said.
pub proof fn record_pages_hold_up_to_two_hundred(
    input: RecordQueryInput,
    request: RecordPageRequest,
)
    ensures
        RECORD_QUERY_DEFAULT_LIMIT == 50,
        RECORD_QUERY_MAX_LIMIT == 200,
        request_refusal(input) is None <==> match input {
            RecordQueryInput::ChangeRequest { filters, limit, cursor } => change_refusal(
                filters,
            ) is None && is_id(cursor) && (limit is Some ==> 1 <= limit->0 <= 200),
            RecordQueryInput::Story { filters, limit, cursor, .. } => story_refusal(filters) is None
                && is_id(cursor) && (limit is Some ==> 1 <= limit->0 <= 200),
        },
        request_read(input, request) ==> {
            &&& input is ChangeRequest <==> request is ChangeRequest
            &&& input is ChangeRequest ==> {
                &&& change_read(input->ChangeRequest_filters, request->ChangeRequest_filters)
                &&& same_id(input->ChangeRequest_cursor, request->ChangeRequest_cursor)
                &&& input->ChangeRequest_limit is Some ==> request->ChangeRequest_limit
                    == input->ChangeRequest_limit->0
                &&& input->ChangeRequest_limit is None ==> request->ChangeRequest_limit == 50
            }
            &&& input is Story ==> {
                &&& story_read(input->Story_filters, request->Story_filters)
                &&& same_id(input->Story_cursor, request->Story_cursor)
                &&& request->include_description == input->include_description
                &&& input->Story_limit is Some ==> request->Story_limit == input->Story_limit->0
                &&& input->Story_limit is None ==> request->Story_limit == 50
            }
        },
{
}

/// A request becomes a query where every state that it names is one of the choices; the
/// query asks for the values of those choices, with the fields for its kind of record and
/// the descriptions where they are wanted.
pub proof fn requests_become_queries(
    request: RecordPageRequest,
    fields: RecordPageFields,
    choices: Seq<FieldChoice>,
    r: Result<Query, RecordQueryError>,
)
    requires
        plan_of(request, fields, choices, r),
    ensures
        request is ChangeRequest ==> {
            let f = request->ChangeRequest_filters;
            let hits = meant(choice_views(choices), f.state->0@);
            &&& r is Ok <==> f.state is None || hits.len() == 1
            &&& r is Ok && f.state is None ==> r->Ok_0@ == change_plan_of(
                f,
                None,
                texts(fields.change_request@),
                request->ChangeRequest_limit,
                text_of(request->ChangeRequest_cursor),
            )
            &&& r is Ok && f.state is Some ==> r->Ok_0@ == change_plan_of(
                f,
                Some(hits[0].value),
                texts(fields.change_request@),
                request->ChangeRequest_limit,
                text_of(request->ChangeRequest_cursor),
            )
        },
        request is Story ==> {
            let f = request->Story_filters;
            let wanted = texts(fields.story@) + (if request->include_description {
                texts(fields.story_description@)
            } else {
                Seq::empty()
            });
            let states = crate::incident::states_of(texts(f.states->0@), choice_views(choices));
            &&& r is Ok <==> f.states is None || states is Ok
            &&& r is Ok && f.states is None ==> r->Ok_0@ == story_plan_of(
                f,
                None,
                wanted,
                request->Story_limit,
                text_of(request->Story_cursor),
            )
            &&& r is Ok && f.states is Some ==> r->Ok_0@ == story_plan_of(
                f,
                Some(states->Ok_0),
                wanted,
                request->Story_limit,
                text_of(request->Story_cursor),
            )
        },
{
    if request is Story && !request->include_description {
        assert(texts(fields.story@) + Seq::<Seq<char>>::empty() =~= texts(fields.story@));
    }
}

/// The record that plans belong to is named by the number of a demand or a project, or by
/// a sys_id; the sys_id is taken in its usual spelling.
pub proof fn plans_belong_to_demands_and_projects(task: TaskSelector, read: TaskSelector)
    ensures
        task is Number ==> (task_refusal(task) is None <==> plan_parent_table(
            task->Number_0@,
        ) is Some),
        task is SysId ==> (task_refusal(task) is None <==> sys_id_of(task->SysId_0@) is Some),
        task is Any ==> task_refusal(task) is None,
        task_read(task, read) && task is Number ==> read == task,
        task_read(task, read) && task is Any ==> read == task,
        task_read(task, read) && task is SysId ==> read is SysId && Some(read->SysId_0@)
            == sys_id_of(task->SysId_0@),
{
}

/// A resource is named by a sys_id, which is taken in its usual spelling, or by its kind.
pub proof fn resources_are_named_by_id_or_kind(
    resource: ResolvedResourceFilter,
    read: ResolvedResourceFilter,
)
    ensures
        resource is Group ==> (resource_refusal(resource) is None <==> sys_id_of(
            resource->Group_0@,
        ) is Some),
        resource is User ==> (resource_refusal(resource) is None <==> sys_id_of(
            resource->User_0@,
        ) is Some),
        resource is TypeOnly || resource is Anyone ==> resource_refusal(resource) is None,
        resource_read(resource, read) && resource is Group ==> read is Group && Some(
            read->Group_0@,
        ) == sys_id_of(resource->Group_0@),
        resource_read(resource, read) && resource is User ==> read is User && Some(read->User_0@)
            == sys_id_of(resource->User_0@),
        resource_read(resource, read) && (resource is TypeOnly || resource is Anyone) ==> read
            == resource,
{
}

} // verus!
