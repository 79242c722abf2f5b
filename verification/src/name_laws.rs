//! Laws of the search for a name in one table.
use vstd::prelude::*;

use crate::listing::lemma_filter_keeps;
use crate::name_table::{
    any_equals, bears, displays, is_name_field, name_page_of, name_query_of, name_row, name_rows,
    projection, Column,
};
use crate::query::{ConditionView, DisplayMode, Operator, QueryView, SortKeyView};
use crate::record_error::ResolveErrorView;
use crate::record_name_resolver::{lowercase, NameMatchView, NAME_FIELDS, NAME_ROWS};
use crate::record_types::type_of_table;
use crate::row::{Failure, PageView, RowView};
use crate::selection::{earlier, group_selection, meets, meets_all, meets_last, selects, Held};
use crate::tables::sys_id_of;
use crate::text::{byte_len, is_identifier, names_of, text_less};

verus! {

proof fn lemma_any(q: QueryView, fields: Seq<Seq<char>>, name: Seq<char>, held: Held)
    ensures
        ({
            let r = any_equals(q, fields, name);
            &&& r == (QueryView { conditions: r.conditions, ..q })
            &&& r.conditions.len() == q.conditions.len() + fields.len()
            &&& forall|i: int|
                0 <= i < q.conditions.len() ==> #[trigger] r.conditions[i] == q.conditions[i]
            &&& forall|i: int|
                0 <= i < fields.len() ==> #[trigger] r.conditions[q.conditions.len() + i] == (
                ConditionView {
                    alternative: i > 0,
                    field: fields[i],
                    operator: Operator::Equals,
                    value: name,
                })
            &&& fields.len() > 0 ==> earlier(r.conditions) == q.conditions
            &&& fields.len() > 0 ==> (meets_last(r.conditions, held) <==> exists|i: int|
                0 <= i < fields.len() && held(#[trigger] fields[i]) == name)
        }),
    decreases fields.len(),
{
    if fields.len() > 0 {
        let before = fields.drop_last();
        let n = fields.len() - 1;
        lemma_any(q, before, name, held);
        let front = any_equals(q, before, name);
        let r = any_equals(q, fields, name);
        assert(r.conditions.drop_last() =~= front.conditions);
        assert(meets(r.conditions.last(), held) <==> held(fields[n]) == name);
        assert forall|i: int| 0 <= i < q.conditions.len() implies #[trigger] r.conditions[i]
            == q.conditions[i] by {
            assert(front.conditions[i] == q.conditions[i]);
        }
        assert forall|i: int| 0 <= i < fields.len() implies #[trigger] r.conditions[q.conditions.len()
            + i] == (ConditionView {
            alternative: i > 0,
            field: fields[i],
            operator: Operator::Equals,
            value: name,
        }) by {
            if i < n {
                assert(front.conditions[q.conditions.len() + i] == r.conditions[q.conditions.len()
                    + i]);
                assert(before[i] == fields[i]);
            }
        }
        if n == 0 {
            assert(front.conditions =~= q.conditions);
            assert(meets_last(r.conditions, held) <==> held(fields[0]) == name);
            if meets_last(r.conditions, held) {
                assert(held(fields[0]) == name);
            }
        } else {
            if meets_last(front.conditions, held) {
                let i = choose|i: int| 0 <= i < before.len() && held(#[trigger] before[i]) == name;
                assert(held(fields[i]) == name);
            }
            if exists|i: int| 0 <= i < fields.len() && held(#[trigger] fields[i]) == name {
                let i = choose|i: int| 0 <= i < fields.len() && held(#[trigger] fields[i]) == name;
                if i < n {
                    assert(held(before[i]) == name);
                }
            }
        }
    }
}

/// The query for a name asks for the rows that bear it in any one of the name fields,
/// behind the row that the page follows; a row that bears it in none is not asked for.
pub proof fn name_queries_ask_for_any_name_field(
    table: Seq<char>,
    fields: Seq<Seq<char>>,
    has_number: bool,
    name: Seq<char>,
    after: Option<Seq<char>>,
    held: Held,
)
    requires
        fields.len() > 0,
    ensures
        selects(name_query_of(table, fields, has_number, name, after), held) <==> {
            &&& exists|i: int| 0 <= i < fields.len() && held(#[trigger] fields[i]) == name
            &&& after is Some ==> text_less(after->0, held("sys_id"@))
        },
{
    broadcast use group_selection;

    let base = QueryView::of(table).fields(projection(fields, has_number)).display(
        DisplayMode::Both,
    ).no_links().limit(NAME_ROWS).no_count().ascending("sys_id"@);
    lemma_any(base, fields, name, held);
    let q = any_equals(base, fields, name);
    assert(base.conditions.len() == 0);
    assert(meets_all(base.conditions, held));
    assert(selects(q, held) <==> meets_last(q.conditions, held));
}

/// Every name field has a condition of its own: that it equals the name. They are
/// alternatives of each other, and there are no others but the one on the row that the
/// page follows.
pub proof fn every_name_field_is_compared(
    table: Seq<char>,
    fields: Seq<Seq<char>>,
    has_number: bool,
    name: Seq<char>,
    after: Option<Seq<char>>,
    i: int,
)
    ensures
        ({
            let q = name_query_of(table, fields, has_number, name, after);
            &&& q.conditions.len() == fields.len() + (if after is Some {
                1int
            } else {
                0int
            })
            &&& 0 <= i < fields.len() ==> q.conditions[i] == (ConditionView {
                alternative: i > 0,
                field: fields[i],
                operator: Operator::Equals,
                value: name,
            })
            &&& after is Some ==> q.conditions.last() == (ConditionView {
                alternative: false,
                field: "sys_id"@,
                operator: Operator::GreaterThan,
                value: after->0,
            })
        }),
{
    let base = QueryView::of(table).fields(projection(fields, has_number)).display(
        DisplayMode::Both,
    ).no_links().limit(NAME_ROWS).no_count().ascending("sys_id"@);
    lemma_any(base, fields, name, |f: Seq<char>| f);
    assert(base.conditions.len() == 0);
    if 0 <= i < fields.len() {
        assert(any_equals(base, fields, name).conditions[base.conditions.len() + i].field
            == fields[i]);
    }
}

/// What the query for a name reads, and how: the name fields, the identity and, where
/// the table has one, the number; twenty rows of the table by their ids.
pub proof fn name_queries_read_the_identity(
    table: Seq<char>,
    fields: Seq<Seq<char>>,
    has_number: bool,
    name: Seq<char>,
    after: Option<Seq<char>>,
    i: int,
)
    ensures
        ({
            let q = name_query_of(table, fields, has_number, name, after);
            &&& q.table == table
            &&& 0 <= i < fields.len() ==> q.fields[i] == fields[i]
            &&& q.fields.contains("sys_id"@)
            &&& q.fields.contains("sys_class_name"@)
            &&& has_number ==> q.fields.contains("number"@)
            &&& q.fields.len() <= fields.len() + 3
            &&& !has_number || fields.contains("number"@) ==> q.fields.len() == fields.len() + 2
            &&& q.order == seq![SortKeyView { field: "sys_id"@, descending: false }]
            &&& q.limit == Some(20u32)
            &&& q.offset is None
            &&& q.display == DisplayMode::Both
            &&& q.without_count
            &&& q.without_links
        }),
{
    let base = QueryView::of(table).fields(projection(fields, has_number)).display(
        DisplayMode::Both,
    ).no_links().limit(NAME_ROWS).no_count().ascending("sys_id"@);
    lemma_any(base, fields, name, |f: Seq<char>| f);
    let q = name_query_of(table, fields, has_number, name, after);
    let read = projection(fields, has_number);
    assert(q.fields =~= read);
    let n = fields.len() as int;
    assert(read[n] == "sys_id"@);
    assert(read[n + 1] == "sys_class_name"@);
    if has_number {
        if fields.contains("number"@) {
            let k = fields.index_of("number"@);
            assert(read[k] == "number"@);
        } else {
            assert(read[n + 2] == "number"@);
        }
    }
    assert(q.order =~= seq![SortKeyView { field: "sys_id"@, descending: false }]);
}

/// A field may hold a name where it is one of the usual ones and the table has it,
/// where the table's model displays it, or where the dictionary names it.
pub proof fn usual_fields_hold_names(columns: Seq<Column>, display: Option<Seq<char>>, f: Seq<char>)
    ensures
        is_name_field(columns, display, f) <==> {
            ||| (f == "name"@ || f == "u_name"@ || f == "x_name"@ || f == "short_description"@ || f
                == "title"@ || f == "number"@ || f == "user_name"@ || f == "email"@) && exists|
                i: int,
            |
                0 <= i < columns.len() && (#[trigger] columns[i]).name@ == f
            ||| is_identifier(f) && exists|i: int|
                0 <= i < columns.len() && (#[trigger] columns[i]).name@ == f && columns[i].display
            ||| display == Some(f)
        },
{
    let usual = names_of(NAME_FIELDS@);
    assert(usual.len() == 8);
    assert(usual[0] == "name"@);
    assert(usual[1] == "u_name"@);
    assert(usual[2] == "x_name"@);
    assert(usual[3] == "short_description"@);
    assert(usual[4] == "title"@);
    assert(usual[5] == "number"@);
    assert(usual[6] == "user_name"@);
    assert(usual[7] == "email"@);
}

/// A row is accepted as a match where its id is a sys_id behind the one before it, its
/// class is an identifier, it bears the name in some field in any case, and its number
/// is not too long; the match tells just that of it.
pub proof fn matches_bear_the_name(
    row: RowView,
    table: Seq<char>,
    name: Seq<char>,
    fields: Seq<Seq<char>>,
    previous: Seq<char>,
)
    ensures
        ({
            let class = match row.raw("sys_class_name"@) {
                Some(c) => if c.len() > 0 {
                    c
                } else {
                    table
                },
                None => table,
            };
            let r = name_row(row, table, name, fields, previous);
            &&& r is Ok <==> {
                &&& sys_id_of(row.sys_id) is Some
                &&& text_less(previous, sys_id_of(row.sys_id)->0)
                &&& is_identifier(class)
                &&& exists|i: int|
                    0 <= i < fields.len() && row.raw(#[trigger] fields[i]) is Some && lowercase(
                        row.raw(fields[i])->0,
                    ) == lowercase(name)
                &&& row.raw("number"@) is Some ==> byte_len(row.raw("number"@)->0) <= 200
            }
            &&& r is Ok ==> {
                let m = r->Ok_0;
                &&& Some(m.sys_id) == sys_id_of(row.sys_id)
                &&& m.table == class
                &&& m.resource_type == type_of_table(class)
                &&& m.name == name
                &&& m.number is Some <==> row.raw("number"@) is Some && row.raw(
                    "number"@,
                )->0.len() > 0
                &&& m.number is Some ==> m.number == row.raw("number"@)
                &&& forall|f: Seq<char>| #[trigger]
                    m.matched_fields.contains(f) <==> fields.contains(f) && row.raw(f) is Some
                        && lowercase(row.raw(f)->0) == lowercase(name)
            }
        }),
{
    let kept = fields.filter(bears(row, name));
    lemma_filter_keeps(fields, bears(row, name));
    if kept.len() > 0 {
        assert(kept.contains(kept[0]));
        assert(fields.contains(kept[0]) && bears(row, name)(kept[0]));
        let i = fields.index_of(kept[0]);
        assert(row.raw(fields[i]) is Some);
    }
    if exists|i: int|
        0 <= i < fields.len() && row.raw(#[trigger] fields[i]) is Some && lowercase(
            row.raw(fields[i])->0,
        ) == lowercase(name) {
        let i = choose|i: int|
            0 <= i < fields.len() && row.raw(#[trigger] fields[i]) is Some && lowercase(
                row.raw(fields[i])->0,
            ) == lowercase(name);
        assert(fields.contains(fields[i]));
        assert(bears(row, name)(fields[i]));
        assert(kept.contains(fields[i]));
    }
    if row.raw("number"@) is Some && row.raw("number"@)->0.len() == 0 {
        assert(row.raw("number"@)->0 =~= Seq::<char>::empty());
        reveal_with_fuel(vstd::utf8::encode_utf8, 2);
    }
}

/// A page of rows is accepted where it is complete, not longer than a page, and every
/// row is a match behind the one before it; where it is full, the next page follows its
/// last row.
pub proof fn full_pages_have_a_next_one(
    reply: Result<PageView, Failure>,
    table: Seq<char>,
    name: Seq<char>,
    fields: Seq<Seq<char>>,
    after: Option<Seq<char>>,
)
    ensures
        ({
            let r = name_page_of(reply, table, name, fields, after);
            let previous = match after {
                Some(a) => a,
                None => ""@,
            };
            &&& r is Ok <==> reply is Ok && !reply->Ok_0.partial && reply->Ok_0.rows.len() <= 20
                && name_rows(reply->Ok_0.rows, table, name, fields, previous) is Ok
            &&& r is Ok ==> {
                let rows = reply->Ok_0.rows;
                &&& r->Ok_0.1 is Some <==> rows.len() == 20
                &&& rows.len() == 20 ==> r->Ok_0.1 == Some(rows.last().sys_id)
                &&& Ok::<Seq<NameMatchView>, ResolveErrorView>(r->Ok_0.0) == name_rows(
                    rows,
                    table,
                    name,
                    fields,
                    previous,
                )
            }
        }),
{
}

/// Every row of an accepted page is a match, behind the match before it.
pub proof fn pages_are_read_row_by_row(
    rows: Seq<RowView>,
    table: Seq<char>,
    name: Seq<char>,
    fields: Seq<Seq<char>>,
    previous: Seq<char>,
    i: int,
)
    requires
        name_rows(rows, table, name, fields, previous) is Ok,
    ensures
        name_rows(rows, table, name, fields, previous)->Ok_0.len() == rows.len(),
        0 <= i < rows.len() ==> name_row(
            rows[i],
            table,
            name,
            fields,
            if i == 0 {
                previous
            } else {
                name_rows(rows, table, name, fields, previous)->Ok_0[i - 1].sys_id
            },
        ) == Ok::<NameMatchView, ResolveErrorView>(
            name_rows(rows, table, name, fields, previous)->Ok_0[i],
        ),
    decreases rows.len(),
{
    if rows.len() > 0 {
        let front = rows.drop_last();
        pages_are_read_row_by_row(front, table, name, fields, previous, i);
    }
}

} // verus!
