//! What a query asks for: the rows that meet its conditions.
use vstd::prelude::*;

use crate::query::{
    comma_joined, Condition, ConditionView, DisplayMode, Operator, Query, QueryView, SortKey,
};
use crate::reference::referring;
use crate::article::is_blank;
use crate::tables::sys_id_of;
use crate::text::{has_at, has_prefix, has_suffix, has_text, text_less, trim};

verus! {

/// The parts of a text between its commas.
pub open spec fn listed(s: Seq<char>) -> Seq<Seq<char>>
    decreases s.len(),
{
    if s.len() == 0 {
        seq![Seq::empty()]
    } else {
        let front = listed(s.drop_last());
        if s.last() == ',' {
            front.push(Seq::empty())
        } else {
            front.drop_last().push(front.last().push(s.last()))
        }
    }
}

/// Whether a value that a row holds compares with the value of a condition as its
/// operator says.
pub open spec fn compares(held: Seq<char>, operator: Operator, value: Seq<char>) -> bool {
    match operator {
        Operator::Equals => held == value,
        Operator::NotEquals => held != value,
        Operator::Contains => has_text(held, value),
        Operator::StartsWith => has_prefix(held, value),
        Operator::EndsWith => has_suffix(held, value),
        Operator::GreaterThan => text_less(value, held),
        Operator::GreaterThanOrEqual => !text_less(held, value),
        Operator::LessThan => text_less(held, value),
        Operator::LessThanOrEqual => !text_less(value, held),
        Operator::In => listed(value).contains(held),
        Operator::IsEmpty => held.len() == 0,
        Operator::IsNotEmpty => held.len() > 0,
    }
}

/// What a row holds in each of its fields.
pub type Held = spec_fn(Seq<char>) -> Seq<char>;

/// Whether a row meets one condition.
pub open spec fn meets(c: ConditionView, held: Held) -> bool {
    compares(held(c.field), c.operator, c.value)
}

/// Whether a row meets one of the last conditions that "or" joins.
pub open spec fn meets_last(conditions: Seq<ConditionView>, held: Held) -> bool
    decreases conditions.len(),
{
    conditions.len() > 0 && (meets(conditions.last(), held) || (conditions.last().alternative
        && meets_last(conditions.drop_last(), held)))
}

/// The conditions before the last ones that "or" joins.
pub open spec fn earlier(conditions: Seq<ConditionView>) -> Seq<ConditionView>
    decreases conditions.len(),
{
    if conditions.len() == 0 {
        Seq::empty()
    } else if conditions.last().alternative {
        earlier(conditions.drop_last())
    } else {
        conditions.drop_last()
    }
}

proof fn lemma_earlier_is_shorter(conditions: Seq<ConditionView>)
    ensures
        conditions.len() > 0 ==> earlier(conditions).len() < conditions.len(),
        conditions.len() == 0 ==> earlier(conditions).len() == 0,
    decreases conditions.len(),
{
    if conditions.len() > 0 && conditions.last().alternative {
        lemma_earlier_is_shorter(conditions.drop_last());
    }
}

/// Whether a row meets all of the conditions; those that "or" joins count as one.
pub open spec fn meets_all(conditions: Seq<ConditionView>, held: Held) -> bool
    decreases conditions.len(),
    via meets_all_ends
{
    conditions.len() == 0 || (meets_last(conditions, held) && meets_all(earlier(conditions), held))
}

#[via_fn]
proof fn meets_all_ends(conditions: Seq<ConditionView>, held: Held) {
    lemma_earlier_is_shorter(conditions);
}

/// Whether a query asks for a row.
pub open spec fn selects(q: QueryView, held: Held) -> bool {
    meets_all(q.conditions, held)
}

/// Whether a value is one of those that a list of a condition names.
pub open spec fn among(held: Seq<char>, values: Seq<Seq<char>>) -> bool {
    listed(comma_joined(values)).contains(held)
}

/// A query without conditions asks for every row.
pub broadcast proof fn lemma_of(table: Seq<char>, held: Held)
    ensures
        #[trigger] selects(QueryView::of(table), held),
{
}

/// A further condition narrows what a query asks for.
pub broadcast proof fn lemma_and(
    q: QueryView,
    field: Seq<char>,
    operator: Operator,
    value: Seq<char>,
    held: Held,
)
    ensures
        #[trigger] selects(q.when(false, field, operator, value), held) <==> selects(q, held)
            && compares(held(field), operator, value),
{
    let c = ConditionView { alternative: false, field, operator, value };
    assert(q.conditions.push(c).drop_last() =~= q.conditions);
}

pub broadcast proof fn lemma_equals(q: QueryView, field: Seq<char>, value: Seq<char>, held: Held)
    ensures
        #[trigger] selects(q.equals(field, value), held) <==> selects(q, held) && held(field)
            == value,
{
    lemma_and(q, field, Operator::Equals, value, held);
}

pub broadcast proof fn lemma_greater(q: QueryView, field: Seq<char>, value: Seq<char>, held: Held)
    ensures
        #[trigger] selects(q.greater_than(field, value), held) <==> selects(q, held) && text_less(
            value,
            held(field),
        ),
{
    lemma_and(q, field, Operator::GreaterThan, value, held);
}

pub broadcast proof fn lemma_less(q: QueryView, field: Seq<char>, value: Seq<char>, held: Held)
    ensures
        #[trigger] selects(q.less_than(field, value), held) <==> selects(q, held) && text_less(
            held(field),
            value,
        ),
{
    lemma_and(q, field, Operator::LessThan, value, held);
}

pub broadcast proof fn lemma_contains(q: QueryView, field: Seq<char>, value: Seq<char>, held: Held)
    ensures
        #[trigger] selects(q.contains(field, value), held) <==> selects(q, held) && has_text(
            held(field),
            value,
        ),
{
    lemma_and(q, field, Operator::Contains, value, held);
}

pub broadcast proof fn lemma_in_list(
    q: QueryView,
    field: Seq<char>,
    values: Seq<Seq<char>>,
    held: Held,
)
    ensures
        #[trigger] selects(q.in_list(field, values), held) <==> selects(q, held) && among(
            held(field),
            values,
        ),
{
    lemma_and(q, field, Operator::In, comma_joined(values), held);
}

pub broadcast proof fn lemma_is_empty(q: QueryView, field: Seq<char>, held: Held)
    ensures
        #[trigger] selects(q.is_empty(field), held) <==> selects(q, held) && held(field).len() == 0,
{
    lemma_and(q, field, Operator::IsEmpty, ""@, held);
}

pub broadcast proof fn lemma_given(
    q: QueryView,
    field: Seq<char>,
    operator: Operator,
    value: Option<Seq<char>>,
    held: Held,
)
    ensures
        #[trigger] selects(q.when_given(field, operator, value), held) <==> selects(q, held) && (
        value is Some ==> compares(held(field), operator, value->0)),
{
    if value is Some {
        lemma_and(q, field, operator, value->0, held);
    }
}

pub broadcast proof fn lemma_in_given(
    q: QueryView,
    field: Seq<char>,
    values: Seq<Seq<char>>,
    held: Held,
)
    ensures
        #[trigger] selects(q.in_given(field, values), held) <==> selects(q, held) && (values.len()
            > 0 ==> among(held(field), values)),
{
    lemma_in_list(q, field, values, held);
}

pub broadcast proof fn lemma_one_of(
    q: QueryView,
    field: Seq<char>,
    values: Seq<Seq<char>>,
    held: Held,
)
    ensures
        #[trigger] selects(q.one_of(field, values), held) <==> selects(q, held) && if values.len()
            == 1 {
            held(field) == values[0]
        } else {
            among(held(field), values)
        },
{
    lemma_in_list(q, field, values, held);
    lemma_equals(q, field, values[0], held);
}

pub broadcast proof fn lemma_flag(q: QueryView, field: Seq<char>, value: Option<bool>, held: Held)
    ensures
        #[trigger] selects(q.flag(field, value), held) <==> selects(q, held) && (value
            == Some(true) ==> held(field) == "true"@) && (value == Some(false) ==> held(field)
            == "false"@),
{
    lemma_equals(q, field, "true"@, held);
    lemma_equals(q, field, "false"@, held);
}

pub broadcast proof fn lemma_field(q: QueryView, n: Seq<char>, held: Held)
    ensures
        #[trigger] selects(q.field(n), held) == selects(q, held),
{
}

pub broadcast proof fn lemma_fields(q: QueryView, n: Seq<Seq<char>>, held: Held)
    ensures
        #[trigger] selects(q.fields(n), held) == selects(q, held),
{
}

pub broadcast proof fn lemma_walk(q: QueryView, n: Seq<Seq<char>>, held: Held)
    ensures
        #[trigger] selects(q.walk(n), held) == selects(q, held),
{
}

pub broadcast proof fn lemma_ascending(q: QueryView, n: Seq<char>, held: Held)
    ensures
        #[trigger] selects(q.ascending(n), held) == selects(q, held),
{
}

pub broadcast proof fn lemma_descending(q: QueryView, n: Seq<char>, held: Held)
    ensures
        #[trigger] selects(q.descending(n), held) == selects(q, held),
{
}

pub broadcast proof fn lemma_limit(q: QueryView, n: u32, held: Held)
    ensures
        #[trigger] selects(q.limit(n), held) == selects(q, held),
{
}

pub broadcast proof fn lemma_offset(q: QueryView, n: u32, held: Held)
    ensures
        #[trigger] selects(q.offset(n), held) == selects(q, held),
{
}

pub broadcast proof fn lemma_display(q: QueryView, mode: DisplayMode, held: Held)
    ensures
        #[trigger] selects(q.display(mode), held) == selects(q, held),
{
}

pub broadcast proof fn lemma_no_count(q: QueryView, held: Held)
    ensures
        #[trigger] selects(q.no_count(), held) == selects(q, held),
{
}

pub broadcast proof fn lemma_no_links(q: QueryView, held: Held)
    ensures
        #[trigger] selects(q.no_links(), held) == selects(q, held),
{
}

/// How each step in building a query changes what it asks for.
pub broadcast group group_selection {
    lemma_of,
    lemma_and,
    lemma_equals,
    lemma_greater,
    lemma_less,
    lemma_contains,
    lemma_in_list,
    lemma_is_empty,
    lemma_given,
    lemma_in_given,
    lemma_one_of,
    lemma_flag,
    lemma_field,
    lemma_fields,
    lemma_walk,
    lemma_ascending,
    lemma_descending,
    lemma_limit,
    lemma_offset,
    lemma_display,
    lemma_no_count,
    lemma_no_links,
}

/// What a query asks for with one more alternative: a row that meets it, or one
/// that the conditions before it let through.
pub proof fn lemma_or(
    conditions: Seq<ConditionView>,
    c: ConditionView,
    held: Held,
)
    requires
        c.alternative,
        conditions.len() > 0,
    ensures
        meets_all(conditions.push(c), held) <==> (meets(c, held) || meets_last(conditions, held))
            && meets_all(earlier(conditions), held),
{
    assert(conditions.push(c).drop_last() =~= conditions);
}

pub open spec fn has_comma(s: Seq<char>) -> bool {
    s.contains(',')
}

proof fn lemma_listed_grows(s: Seq<char>, t: Seq<char>)
    requires
        !has_comma(t),
    ensures
        listed(s).len() > 0,
        listed(s + t) == listed(s).drop_last().push(listed(s).last() + t),
    decreases t.len(),
{
    lemma_listed_some(s);
    if t.len() == 0 {
        assert(s + t =~= s);
        assert(listed(s).last() + t =~= listed(s).last());
        assert(listed(s).drop_last().push(listed(s).last()) =~= listed(s));
    } else {
        let front = t.drop_last();
        assert(!has_comma(front)) by {
            if front.contains(',') {
                let i = front.index_of(',');
                assert(t[i] == ',');
            }
        }
        lemma_listed_grows(s, front);
        assert((s + t).drop_last() =~= s + front);
        assert(t.last() != ',') by {
            if t.last() == ',' {
                assert(t[t.len() - 1] == ',');
            }
        }
        let before = listed(s).drop_last().push(listed(s).last() + front);
        assert(before.drop_last() =~= listed(s).drop_last());
        assert((listed(s).last() + front).push(t.last()) =~= listed(s).last() + t);
    }
}

proof fn lemma_listed_some(s: Seq<char>)
    ensures
        listed(s).len() > 0,
    decreases s.len(),
{
    if s.len() > 0 {
        lemma_listed_some(s.drop_last());
    }
}

/// The list of a condition names its values, each as it is and no other, where no
/// value holds a comma.
pub proof fn lists_name_their_values(values: Seq<Seq<char>>)
    requires
        values.len() > 0,
        forall|i: int| 0 <= i < values.len() ==> !has_comma(#[trigger] values[i]),
    ensures
        listed(comma_joined(values)) == values,
        forall|held: Seq<char>| #[trigger] among(held, values) <==> values.contains(held),
    decreases values.len(),
{
    let none = Seq::<char>::empty();
    if values.len() == 1 {
        lemma_listed_grows(none, values[0]);
        assert(none + values[0] =~= values[0]);
        assert(listed(none).last() + values[0] =~= values[0]);
        assert(listed(values[0]) =~= values);
    } else {
        let front = values.drop_last();
        assert forall|i: int| 0 <= i < front.len() implies !has_comma(#[trigger] front[i]) by {
            assert(front[i] == values[i]);
        }
        lists_name_their_values(front);
        let open = comma_joined(front) + seq![','];
        assert(open.drop_last() =~= comma_joined(front));
        assert(listed(open) == front.push(none));
        assert(!has_comma(values[values.len() - 1]));
        lemma_listed_grows(open, values.last());
        assert(front.push(none).drop_last() =~= front);
        assert(none + values.last() =~= values.last());
        assert(front.push(values.last()) =~= values);
    }
}

/// What a query says is what it holds.
pub proof fn queries_say_what_they_hold(q: Query, i: int)
    ensures
        q@.table == q.table@,
        q@.limit == q.limit,
        q@.offset == q.offset,
        q@.display == q.display,
        q@.without_count == q.without_count,
        q@.without_links == q.without_links,
        q@.fields.len() == q.fields@.len(),
        0 <= i < q.fields@.len() ==> q@.fields[i] == q.fields@[i]@,
        q@.dot_walk.len() == q.dot_walk@.len(),
        0 <= i < q.dot_walk@.len() ==> q@.dot_walk[i] == q.dot_walk@[i]@,
        q@.conditions.len() == q.conditions@.len(),
        0 <= i < q.conditions@.len() ==> {
            let c: Condition = q.conditions@[i];
            &&& q@.conditions[i].alternative == c.alternative
            &&& q@.conditions[i].field == c.field@
            &&& q@.conditions[i].operator == c.operator
            &&& q@.conditions[i].value == c.value@
        },
        q@.order.len() == q.order@.len(),
        0 <= i < q.order@.len() ==> {
            let k: SortKey = q.order@[i];
            q@.order[i].field == k.field@ && q@.order[i].descending == k.descending
        },
{
}

/// What a reference is asked for by: the sys_id of the record referred to, or a part
/// of its name; a blank text asks for nothing.
pub proof fn references_are_looked_for(
    q: QueryView,
    field: Seq<char>,
    given: Option<Seq<char>>,
    held: Held,
)
    ensures
        selects(referring(q, field, given), held) <==> selects(q, held) && match given {
            None => true,
            Some(text) => is_blank(text) || match sys_id_of(text) {
                Some(id) => held(field) == id,
                None => has_text(held(field + ".name"@), trim(text)),
            },
        },
        referring(q, field, given) == (QueryView {
            conditions: referring(q, field, given).conditions,
            ..q
        }),
{
    broadcast use group_selection;

}

} // verus!
