//! Laws of reading incidents: which requests are accepted, and which incidents the
//! queries that they become ask for.
use vstd::prelude::*;

use crate::choices::{meant, FieldChoiceView};
use crate::incident::{
    group_plan_of, incident_number_of, incident_plan_of, is_denied, is_validated, number_query_of,
    number_step, numbers_of, priorities_of, priority_step, query_refusal, state_step, states_of,
    value_step, values_of, IncidentQueryInput, PageLimits, ValidatedIncidentQuery,
    INCIDENT_GROUP_LIST_FIELDS,
};
use crate::listing::{lemma_distinct_pass, pass, read_apart};
use crate::query::{DisplayMode, SortKeyView};
use crate::row::Failure;
use crate::selection::{among, group_selection, selects, Held};
use crate::tables::sys_id_of;
use crate::text::{decimal, has_prefix, names_of, text_less, text_of, texts, trim, upper};
use crate::timestamp::timestamp_of;

verus! {

/// The query that an accepted request becomes asks for the incidents that meet every
/// filter that was given, each on its own field, and lets a filter that was not given
/// pass everything.
pub proof fn incident_queries_ask_for_what_was_given(
    q: ValidatedIncidentQuery,
    states: Seq<Seq<char>>,
    fields: Seq<Seq<char>>,
    held: Held,
)
    ensures
        selects(incident_plan_of(q, states, fields), held) <==> {
            &&& q.numbers@.len() > 0 ==> among(held("number"@), texts(q.numbers@))
            &&& q.assignment_group is Some ==> held("assignment_group"@) == q.assignment_group->0@
            &&& q.assigned_to is Some ==> held("assigned_to"@) == q.assigned_to->0@
            &&& q.caller_id is Some ==> held("caller_id"@) == q.caller_id->0@
            &&& q.cmdb_ci is Some ==> held("cmdb_ci"@) == q.cmdb_ci->0@
            &&& states.len() > 0 ==> among(held("state"@), states)
            &&& q.priorities@.len() > 0 ==> among(held("priority"@), texts(q.priorities@))
            &&& q.active == Some(true) ==> held("active"@) == "true"@
            &&& q.active == Some(false) ==> held("active"@) == "false"@
            &&& q.opened_after is Some ==> text_less(q.opened_after->0@, held("opened_at"@))
            &&& q.opened_before is Some ==> text_less(held("opened_at"@), q.opened_before->0@)
            &&& q.updated_after is Some ==> text_less(
                q.updated_after->0@,
                held("sys_updated_on"@),
            )
            &&& q.updated_before is Some ==> text_less(
                held("sys_updated_on"@),
                q.updated_before->0@,
            )
            &&& q.cursor is Some ==> text_less(q.cursor->0@, held("sys_id"@))
        },
{
    broadcast use group_selection;

    assert(texts(q.numbers@).len() == q.numbers@.len());
    assert(texts(q.priorities@).len() == q.priorities@.len());
}

/// The incidents of a page come in the order of their ids, as many as the page holds,
/// with the fields that are wanted.
pub proof fn incident_pages_are_read_by_id(
    q: ValidatedIncidentQuery,
    states: Seq<Seq<char>>,
    fields: Seq<Seq<char>>,
)
    requires
        q.limit <= u32::MAX,
    ensures
        ({
            let p = incident_plan_of(q, states, fields);
            &&& p.table == "incident"@
            &&& p.fields == fields
            &&& p.dot_walk.len() == 0
            &&& p.order == seq![SortKeyView { field: "sys_id"@, descending: false }]
            &&& p.limit == Some(q.limit as u32)
            &&& p.offset is None
            &&& p.display == DisplayMode::Both
            &&& p.without_links
        }),
{
    let p = incident_plan_of(q, states, fields);
    assert(p.fields =~= fields);
    assert(p.order =~= seq![SortKeyView { field: "sys_id"@, descending: false }]);
}

/// The page of a group asks for its active incidents, of one state where one is given,
/// behind the cursor.
pub proof fn group_pages_ask_for_active_incidents(
    group: Seq<char>,
    state: Option<Seq<char>>,
    cursor: Option<Seq<char>>,
    limit: u32,
    held: Held,
)
    ensures
        ({
            let p = group_plan_of(group, state, cursor, limit);
            &&& selects(p, held) <==> {
                &&& held("assignment_group"@) == group
                &&& held("active"@) == "true"@
                &&& state is Some ==> held("state"@) == state->0
                &&& cursor is Some ==> text_less(cursor->0, held("sys_id"@))
            }
            &&& p.table == "incident"@
            &&& p.order == seq![SortKeyView { field: "sys_id"@, descending: false }]
            &&& p.limit == Some(limit)
            &&& p.offset is None
            &&& p.display == DisplayMode::Both
            &&& p.fields == names_of(INCIDENT_GROUP_LIST_FIELDS@)
        }),
{
    broadcast use group_selection;

    let p = group_plan_of(group, state, cursor, limit);
    assert(p.order =~= seq![SortKeyView { field: "sys_id"@, descending: false }]);
    assert(p.fields =~= names_of(INCIDENT_GROUP_LIST_FIELDS@));
}

/// What a list of a group's incidents reads: all that tells whether an incident is open,
/// and where the next page begins.
pub proof fn group_lists_read_what_they_judge_by(i: int)
    ensures
        INCIDENT_GROUP_LIST_FIELDS@.len() == 10,
        INCIDENT_GROUP_LIST_FIELDS@[0]@ == "sys_id"@,
        INCIDENT_GROUP_LIST_FIELDS@[1]@ == "number"@,
        INCIDENT_GROUP_LIST_FIELDS@[2]@ == "short_description"@,
        INCIDENT_GROUP_LIST_FIELDS@[3]@ == "state"@,
        INCIDENT_GROUP_LIST_FIELDS@[4]@ == "priority"@,
        INCIDENT_GROUP_LIST_FIELDS@[5]@ == "opened_at"@,
        INCIDENT_GROUP_LIST_FIELDS@[6]@ == "assigned_to"@,
        INCIDENT_GROUP_LIST_FIELDS@[7]@ == "assignment_group"@,
        INCIDENT_GROUP_LIST_FIELDS@[8]@ == "active"@,
        INCIDENT_GROUP_LIST_FIELDS@[9]@ == "sys_updated_on"@,
{
}

/// A number asks for the incident that bears it, and for a second row where there is one.
pub proof fn incidents_are_asked_for_by_number(number: Seq<char>, held: Held)
    ensures
        selects(number_query_of(number), held) <==> held("number"@) == number,
        number_query_of(number).table == "incident"@,
        number_query_of(number).limit == Some(2u32),
        number_query_of(number).display == DisplayMode::Both,
{
    broadcast use group_selection;

}

/// An incident number is `INC` and digits, in capitals and without blanks around it.
pub proof fn incident_numbers_are_inc_and_digits(s: Seq<char>)
    ensures
        incident_number_of(s) is Some <==> {
            let n = upper(trim(s));
            &&& n.len() >= 4
            &&& n[0] == 'I' && n[1] == 'N' && n[2] == 'C'
            &&& forall|i: int| 3 <= i < n.len() ==> '0' <= #[trigger] n[i] <= '9'
        },
        incident_number_of(s) is Some ==> incident_number_of(s)->0 == upper(trim(s)),
{
    reveal_strlit("INC");
    let n = upper(trim(s));
    if n.len() >= 3 {
        let p = n.subrange(0, 3);
        assert(p[0] == n[0] && p[1] == n[1] && p[2] == n[2]);
        if n[0] == 'I' && n[1] == 'N' && n[2] == 'C' {
            assert(p =~= "INC"@);
        }
        assert(has_prefix(n, "INC"@) <==> n[0] == 'I' && n[1] == 'N' && n[2] == 'C');
    }
    if n.len() > 3 && (forall|i: int| 3 <= i < n.len() ==> '0' <= #[trigger] n[i] <= '9') {
        assert forall|i: int| 3 <= i < n.len() implies crate::text::is_digit(#[trigger] n[i]) by {
        }
    }
    if crate::incident::is_incident_number(n) {
        assert forall|i: int| 3 <= i < n.len() implies '0' <= #[trigger] n[i] <= '9' by {
            assert(crate::text::is_digit(n[i]));
        }
    }
}

/// A list of numbers is accepted where it holds no more than twenty, each is an incident
/// number and none comes twice; it is taken in its order.
pub proof fn number_lists_hold_distinct_numbers(values: Seq<Seq<char>>)
    ensures
        numbers_of(values) is Ok <==> values.len() <= 20 && read_apart(
            values,
            |v: Seq<char>| incident_number_of(v),
        ),
        numbers_of(values) is Ok ==> numbers_of(values)->Ok_0.len() == values.len() && forall|
            i: int,
        |
            0 <= i < values.len() ==> Some(#[trigger] numbers_of(values)->Ok_0[i])
                == incident_number_of(values[i]),
{
    lemma_distinct_pass(values, number_step(), |v: Seq<char>| incident_number_of(v));
}

pub open spec fn something(v: Seq<char>) -> Option<Seq<char>> {
    if trim(v).len() > 0 {
        Some(trim(v))
    } else {
        None
    }
}

/// A list of values is accepted where it is not too long, none is blank and none comes
/// twice; the blanks around them are taken off.
pub proof fn value_lists_hold_distinct_values(values: Seq<Seq<char>>, field: Seq<char>, max: nat)
    ensures
        values_of(values, field, max) is Ok <==> values.len() <= max && read_apart(
            values,
            |v: Seq<char>| something(v),
        ),
        values_of(values, field, max) is Ok ==> values_of(values, field, max)->Ok_0.len()
            == values.len() && forall|i: int|
            0 <= i < values.len() ==> #[trigger] values_of(values, field, max)->Ok_0[i] == trim(
                values[i],
            ),
{
    let read = |v: Seq<char>| something(v);
    lemma_distinct_pass(values, value_step(field), read);
    if values_of(values, field, max) is Ok {
        let taken = values_of(values, field, max)->Ok_0;
        assert forall|i: int| 0 <= i < values.len() implies #[trigger] taken[i] == trim(
            values[i],
        ) by {
            assert(Some(taken[i]) == read(values[i]));
        }
    }
}

pub open spec fn from_one_to_five(p: u8) -> Option<u8> {
    if p == 1 || p == 2 || p == 3 || p == 4 || p == 5 {
        Some(p)
    } else {
        None
    }
}

/// A list of priorities is accepted where each is from one to five and none comes twice;
/// they are asked for by their digits.
pub proof fn priority_lists_hold_distinct_priorities(values: Seq<u8>)
    ensures
        priorities_of(values) is Ok <==> values.len() <= 5 && read_apart(
            values,
            |p: u8| from_one_to_five(p),
        ),
        priorities_of(values) is Ok ==> priorities_of(values)->Ok_0.len() == values.len()
            && forall|i: int|
            0 <= i < values.len() ==> #[trigger] priorities_of(values)->Ok_0[i] == decimal(
                values[i] as nat,
            ),
{
    let read = |p: u8| from_one_to_five(p);
    lemma_distinct_pass(values, priority_step(), read);
    if priorities_of(values) is Ok {
        let taken = pass(values, Seq::<u8>::empty(), priority_step())->Ok_0;
        assert forall|i: int| 0 <= i < values.len() implies #[trigger] priorities_of(
            values,
        )->Ok_0[i] == decimal(values[i] as nat) by {
            assert(Some(taken[i]) == read(values[i]));
        }
    }
}

/// Whether a point in time that was given is one.
pub open spec fn is_time(value: Option<String>) -> bool {
    value is Some ==> timestamp_of(value->0@) is Some
}

/// Whether an id that was given is one.
pub open spec fn is_id(value: Option<String>) -> bool {
    value is Some ==> sys_id_of(value->0@) is Some
}

/// Whether a range of time that was given is not empty.
pub open spec fn is_range(after: Option<String>, before: Option<String>) -> bool {
    after is Some && before is Some ==> text_less(after->0@, before->0@)
}

/// A request for incidents is accepted where every filter that it gives can be read: the
/// lists hold distinct values and at least one, the ids are sys_ids, the times are
/// written in the usual way, no range is empty, the limit is within its bounds and the
/// cursor is a sys_id.
pub proof fn readable_requests_are_accepted(input: IncidentQueryInput, limits: PageLimits)
    ensures
        ({
            let f = input.filters;
            let limit = match input.limit {
                Some(n) => n,
                None => limits.default_limit,
            };
            query_refusal(input, limits) is None <==> {
                &&& f.numbers is Some ==> f.numbers->0@.len() > 0 && numbers_of(
                    texts(f.numbers->0@),
                ) is Ok
                &&& f.states is Some ==> f.states->0@.len() > 0 && values_of(
                    texts(f.states->0@),
                    "states"@,
                    20,
                ) is Ok
                &&& f.priorities is Some ==> f.priorities->0@.len() > 0 && priorities_of(
                    f.priorities->0@,
                ) is Ok
                &&& is_id(f.assignment_group)
                &&& is_id(f.assigned_to)
                &&& is_id(f.caller_id)
                &&& is_id(f.cmdb_ci)
                &&& is_time(f.opened_after)
                &&& is_time(f.opened_before)
                &&& is_time(f.updated_after)
                &&& is_time(f.updated_before)
                &&& is_range(f.opened_after, f.opened_before)
                &&& is_range(f.updated_after, f.updated_before)
                &&& 1 <= limit <= limits.max_limit
                &&& is_id(input.cursor)
            }
        }),
{
}

/// An accepted request keeps every filter as it was given, the ids in their usual
/// spelling: what was asked of one field is never asked of another.
pub proof fn accepted_requests_keep_their_filters(
    q: ValidatedIncidentQuery,
    input: IncidentQueryInput,
    limits: PageLimits,
)
    requires
        is_validated(q, input, limits),
    ensures
        ({
            let f = input.filters;
            &&& q.assignment_group is Some <==> f.assignment_group is Some
            &&& q.assignment_group is Some ==> Some(q.assignment_group->0@) == sys_id_of(
                f.assignment_group->0@,
            )
            &&& q.assigned_to is Some <==> f.assigned_to is Some
            &&& q.assigned_to is Some ==> Some(q.assigned_to->0@) == sys_id_of(f.assigned_to->0@)
            &&& q.caller_id is Some <==> f.caller_id is Some
            &&& q.caller_id is Some ==> Some(q.caller_id->0@) == sys_id_of(f.caller_id->0@)
            &&& q.cmdb_ci is Some <==> f.cmdb_ci is Some
            &&& q.cmdb_ci is Some ==> Some(q.cmdb_ci->0@) == sys_id_of(f.cmdb_ci->0@)
            &&& q.active == f.active
            &&& text_of(q.opened_after) == text_of(f.opened_after)
            &&& text_of(q.opened_before) == text_of(f.opened_before)
            &&& text_of(q.updated_after) == text_of(f.updated_after)
            &&& text_of(q.updated_before) == text_of(f.updated_before)
            &&& q.limit == (match input.limit {
                Some(n) => n,
                None => limits.default_limit,
            })
            &&& q.cursor is Some <==> input.cursor is Some
            &&& q.cursor is Some ==> Some(q.cursor->0@) == sys_id_of(input.cursor->0@)
            &&& f.numbers is None ==> q.numbers@.len() == 0
            &&& f.numbers is Some ==> q.numbers@.len() == f.numbers->0@.len() && forall|i: int|
                0 <= i < q.numbers@.len() ==> Some((#[trigger] q.numbers@[i])@)
                    == incident_number_of(f.numbers->0@[i]@)
            &&& f.states is None ==> q.states@.len() == 0
            &&& f.states is Some ==> q.states@.len() == f.states->0@.len() && forall|i: int|
                0 <= i < q.states@.len() ==> (#[trigger] q.states@[i])@ == trim(f.states->0@[i]@)
            &&& f.priorities is None ==> q.priorities@.len() == 0
            &&& f.priorities is Some ==> q.priorities@.len() == f.priorities->0@.len() && forall|
                i: int,
            |
                0 <= i < q.priorities@.len() ==> (#[trigger] q.priorities@[i])@ == decimal(
                    f.priorities->0@[i] as nat,
                )
        }),
{
    let f = input.filters;
    assert(texts(q.numbers@).len() == q.numbers@.len());
    assert(texts(q.states@).len() == q.states@.len());
    assert(texts(q.priorities@).len() == q.priorities@.len());
    if f.numbers is Some {
        let given = texts(f.numbers->0@);
        number_lists_hold_distinct_numbers(given);
        assert forall|i: int| 0 <= i < q.numbers@.len() implies Some((#[trigger] q.numbers@[i])@)
            == incident_number_of(f.numbers->0@[i]@) by {
            assert(texts(q.numbers@)[i] == q.numbers@[i]@);
            assert(Some(numbers_of(given)->Ok_0[i]) == incident_number_of(given[i]));
        }
    }
    if f.states is Some {
        let given = texts(f.states->0@);
        value_lists_hold_distinct_values(given, "states"@, 20);
        assert forall|i: int| 0 <= i < q.states@.len() implies (#[trigger] q.states@[i])@ == trim(
            f.states->0@[i]@,
        ) by {
            assert(texts(q.states@)[i] == q.states@[i]@);
            assert(values_of(given, "states"@, 20)->Ok_0[i] == trim(given[i]));
        }
    }
    if f.priorities is Some {
        let given = f.priorities->0@;
        priority_lists_hold_distinct_priorities(given);
        assert forall|i: int| 0 <= i < q.priorities@.len() implies (#[trigger] q.priorities@[i])@
            == decimal(f.priorities->0@[i] as nat) by {
            assert(texts(q.priorities@)[i] == q.priorities@[i]@);
            assert(priorities_of(given)->Ok_0[i] == decimal(given[i] as nat));
        }
    }
}

/// The value of the one choice that a selector means.
pub open spec fn only_choice(choices: Seq<FieldChoiceView>, selector: Seq<char>) -> Option<
    Seq<char>,
> {
    if meant(choices, selector).len() == 1 {
        Some(meant(choices, selector)[0].value)
    } else {
        None
    }
}

/// States are resolved where each selector means exactly one choice and no two mean the
/// same; the query then asks for the values of those choices, in their order.
pub proof fn states_are_those_that_were_meant(
    requested: Seq<Seq<char>>,
    choices: Seq<FieldChoiceView>,
)
    ensures
        states_of(requested, choices) is Ok <==> read_apart(
            requested,
            |s: Seq<char>| only_choice(choices, s),
        ),
        states_of(requested, choices) is Ok ==> states_of(requested, choices)->Ok_0.len()
            == requested.len() && forall|i: int|
            0 <= i < requested.len() ==> Some(#[trigger] states_of(requested, choices)->Ok_0[i])
                == only_choice(choices, requested[i]),
{
    lemma_distinct_pass(
        requested,
        state_step(choices),
        |s: Seq<char>| only_choice(choices, s),
    );
}

/// Access is refused where the provider answers 401 or 403, and nowhere else.
pub proof fn refusals_are_unauthorized_or_forbidden(failure: Failure)
    ensures
        is_denied(failure) <==> match failure {
            Failure::Api(status) => status == 401 || status == 403,
            Failure::Auth(Some(status)) => status == 401 || status == 403,
            _ => false,
        },
{
}

} // verus!
