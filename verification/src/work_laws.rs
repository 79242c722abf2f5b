//! Laws of open work: which records are open, what a user's lists ask for, and where a
//! page stands.
use vstd::prelude::*;

use crate::my_work::{
    record_says_no, stays, work_query_of, KeptRecord, WorkListView, CHANGE_TASK_FIELDS,
    CHANGE_TASK_WALK, DEMAND_FIELDS, INCIDENT_FIELDS, PROJECT_FIELDS, SCRUM_TASK_FIELDS,
    SCRUM_TASK_WALK, STORY_FIELDS, TASK_FIELDS, TASK_WALK,
};
use crate::order::{in_order, sorted, sorting_orders};
use crate::query::{DisplayMode, SortKeyView};
use crate::row::{cell_map, cell_view, row_views, Cell, Page, Row, RowView};
use crate::selection::{group_selection, selects, Held};
use crate::text::{lower, text_less, text_of, trim};
use crate::types::{NamedField, SnowRecord};
use crate::work::{is_open, is_terminal, marks, says_no, PageMark};

verus! {

/// A row says of each field what its first cell of that name holds.
pub proof fn rows_say_what_their_cells_hold(row: Row, field: Seq<char>, at: int)
    ensures
        row@.table == row.table@,
        row@.sys_id == row.sys_id@,
        row@.has(field) <==> exists|i: int|
            0 <= i < row.cells@.len() && (#[trigger] row.cells@[i]).name@ == field,
        0 <= at < row.cells@.len() && row.cells@[at].name@ == field && (forall|k: int|
            0 <= k < at ==> (#[trigger] row.cells@[k]).name@ != field) ==> {
            &&& row@.raw(field) == text_of(row.cells@[at].raw)
            &&& row@.display(field) == text_of(row.cells@[at].display)
            &&& row@.other(field) == text_of(row.cells@[at].other)
        },
        !row@.has(field) ==> row@.raw(field) is None && row@.display(field) is None && row@.other(
            field,
        ) is None,
{
    lemma_cells(row.cells@, field, at);
}

proof fn lemma_cells(cells: Seq<Cell>, field: Seq<char>, at: int)
    ensures
        cell_map(cells).dom().contains(field) <==> exists|i: int|
            0 <= i < cells.len() && (#[trigger] cells[i]).name@ == field,
        0 <= at < cells.len() && cells[at].name@ == field && (forall|k: int|
            0 <= k < at ==> (#[trigger] cells[k]).name@ != field) ==> cell_map(cells)[field]
            == cell_view(cells[at]),
    decreases cells.len(),
{
    if cells.len() > 0 {
        let rest = cells.subrange(1, cells.len() as int);
        lemma_cells(rest, field, at - 1);
        if exists|i: int| 0 <= i < rest.len() && (#[trigger] rest[i]).name@ == field {
            let i = choose|i: int| 0 <= i < rest.len() && (#[trigger] rest[i]).name@ == field;
            assert(cells[i + 1].name@ == field);
        }
        if exists|i: int| 0 <= i < cells.len() && (#[trigger] cells[i]).name@ == field {
            let i = choose|i: int| 0 <= i < cells.len() && (#[trigger] cells[i]).name@ == field;
            if i > 0 {
                assert(rest[i - 1].name@ == field);
            }
        }
        if 0 < at < cells.len() && cells[at].name@ == field && (forall|k: int|
            0 <= k < at ==> (#[trigger] cells[k]).name@ != field) {
            assert(rest[at - 1] == cells[at]);
            assert(cells[0].name@ != field);
            assert forall|k: int| 0 <= k < at - 1 implies (#[trigger] rest[k]).name@ != field by {
                assert(rest[k] == cells[k + 1]);
            }
        }
    }
}

/// What is shown of a field is its display value, else its raw value; its value is its raw
/// text, else what it holds that is no text.
pub proof fn fields_are_shown_and_valued(row: RowView, field: Seq<char>)
    ensures
        row.display(field) is Some ==> row.shown(field) == row.display(field),
        row.display(field) is None ==> row.shown(field) == row.raw(field),
        row.raw(field) is Some ==> row.value(field) == row.raw(field),
        row.raw(field) is None ==> row.value(field) == row.other(field),
{
}

/// Rows are told apart one for one, and a page says whether it is partial.
pub proof fn pages_say_what_they_hold(page: Page, i: int)
    ensures
        page@.partial == page.partial,
        page@.rows.len() == page.rows@.len(),
        0 <= i < page.rows@.len() ==> page@.rows[i] == page.rows@[i]@,
        row_views(page.rows@) == page@.rows,
{
}

/// The words that say no, in any case and whatever blanks stand around them.
pub proof fn some_words_say_no(value: Seq<char>)
    ensures
        says_no(value) <==> lower(trim(value)) == "false"@ || lower(trim(value)) == "0"@ || lower(
            trim(value),
        ) == "no"@,
{
}

/// A row is open unless its state, in small letters, is one of those that end a record,
/// or its field says, raw or as shown, that it is not active.
pub proof fn rows_are_open_until_they_end(row: RowView, terminal: Seq<Seq<char>>)
    ensures
        is_open(row, terminal) <==> {
            &&& row.shown("state"@) is Some ==> !terminal.contains(
                lower(trim(row.shown("state"@)->0)),
            )
            &&& row.raw("active"@) is Some ==> !says_no(row.raw("active"@)->0)
            &&& row.display("active"@) is Some ==> !says_no(row.display("active"@)->0)
        },
{
}

/// A state ends a record where it is one of those given, in any case.
pub proof fn states_end_in_any_case(state: Seq<char>, terminal: Seq<Seq<char>>)
    ensures
        is_terminal(Some(state), terminal) <==> terminal.contains(lower(trim(state))),
        !is_terminal(None, terminal),
{
}

/// A page by cursor counts its rows; it is the last one where it is not full, and else the
/// next one begins behind its last row.
pub proof fn full_pages_go_on_behind_their_last_row(mark: PageMark, rows: Seq<RowView>, limit: int)
    requires
        marks(mark, rows, limit),
        limit > 0,
    ensures
        mark.rows_inspected == rows.len(),
        mark.complete <==> rows.len() < limit,
        mark.next_cursor is None <==> rows.len() < limit,
        rows.len() >= limit ==> mark.next_cursor is Some && mark.next_cursor->0@
            == rows.last().sys_id,
{
}

/// A list of work asks for the records whose field names the user, of the class that is
/// wanted, and that are active where only those are; those changed last come first.
pub proof fn work_lists_ask_for_the_user(
    list: WorkListView,
    user: Seq<char>,
    active_only: bool,
    held: Held,
)
    ensures
        ({
            let q = work_query_of(list, user, active_only);
            &&& selects(q, held) <==> {
                &&& held(list.user_field) == user
                &&& list.class is Some ==> held("sys_class_name"@) == list.class->0
                &&& active_only ==> held("active"@) == "true"@
            }
            &&& q.table == list.table
            &&& q.fields == list.fields
            &&& q.dot_walk == list.walk
            &&& q.order == seq![SortKeyView { field: "sys_updated_on"@, descending: true }]
            &&& q.limit == Some(200u32)
            &&& q.display == DisplayMode::Both
        }),
{
    broadcast use group_selection;

    let q = work_query_of(list, user, active_only);
    assert(q.fields =~= list.fields);
    assert(q.dot_walk =~= list.walk);
    assert(q.order =~= seq![SortKeyView { field: "sys_updated_on"@, descending: true }]);
}

/// A record that is kept stays while it is open and, where everything is known, it is among
/// the user's work.
pub proof fn kept_records_stay_while_open(
    record: KeptRecord,
    scope: Seq<Seq<char>>,
    scope_complete: bool,
)
    ensures
        stays(scope, scope_complete)(record) <==> record.open && (!scope_complete
            || scope.contains(record.sys_id@)),
{
}

/// A record says no where a field of that name does, by its value or by what it shows.
pub proof fn records_say_no_by_value_or_display(
    fields: Seq<NamedField>,
    name: Seq<char>,
)
    ensures
        record_says_no(fields, name) <==> exists|i: int|
            {
                &&& 0 <= i < fields.len()
                &&& (#[trigger] fields[i]).name@ == name
                &&& says_no(fields[i].field.value@) || (fields[i].field.display_value is Some
                    && says_no(fields[i].field.display_value->0@))
            },
{
}

/// Records that are sorted come in the order of their numbers, and none is lost.
pub proof fn records_come_by_number(records: Seq<SnowRecord>, i: int, j: int)
    requires
        0 <= i < j < sorted(records).len(),
    ensures
        !text_less(sorted(records)[j].number@, sorted(records)[i].number@),
        sorted(records).to_multiset() == records.to_multiset(),
{
    sorting_orders(records);
    assert(in_order(sorted(records)));
    assert(!crate::order::Ranked::before(sorted(records)[j], sorted(records)[i]));
}

/// What is read of a task, and of its parent.
pub proof fn tasks_are_read_with_their_parent()
    ensures
        TASK_FIELDS@.len() == 14,
        TASK_FIELDS@[0]@ == "sys_id"@,
        TASK_FIELDS@[1]@ == "number"@,
        TASK_FIELDS@[2]@ == "short_description"@,
        TASK_FIELDS@[3]@ == "description"@,
        TASK_FIELDS@[4]@ == "state"@,
        TASK_FIELDS@[5]@ == "assigned_to"@,
        TASK_FIELDS@[6]@ == "assignment_group"@,
        TASK_FIELDS@[7]@ == "opened_at"@,
        TASK_FIELDS@[8]@ == "due_date"@,
        TASK_FIELDS@[9]@ == "parent"@,
        TASK_FIELDS@[10]@ == "sys_class_name"@,
        TASK_FIELDS@[11]@ == "sys_updated_on"@,
        TASK_FIELDS@[12]@ == "sys_mod_count"@,
        TASK_FIELDS@[13]@ == "work_notes"@,
        TASK_WALK@.len() == 2,
        TASK_WALK@[0]@ == "parent.number"@,
        TASK_WALK@[1]@ == "parent.sys_class_name"@,
{
}

/// What is read of a change task, and of its change.
pub proof fn change_tasks_are_read_with_their_change()
    ensures
        CHANGE_TASK_FIELDS@.len() == 13,
        CHANGE_TASK_FIELDS@[0]@ == "sys_id"@,
        CHANGE_TASK_FIELDS@[1]@ == "number"@,
        CHANGE_TASK_FIELDS@[2]@ == "short_description"@,
        CHANGE_TASK_FIELDS@[3]@ == "description"@,
        CHANGE_TASK_FIELDS@[4]@ == "state"@,
        CHANGE_TASK_FIELDS@[5]@ == "assigned_to"@,
        CHANGE_TASK_FIELDS@[6]@ == "planned_start_date"@,
        CHANGE_TASK_FIELDS@[7]@ == "planned_start"@,
        CHANGE_TASK_FIELDS@[8]@ == "work_start"@,
        CHANGE_TASK_FIELDS@[9]@ == "expected_start"@,
        CHANGE_TASK_FIELDS@[10]@ == "start_date"@,
        CHANGE_TASK_FIELDS@[11]@ == "change_request"@,
        CHANGE_TASK_FIELDS@[12]@ == "work_notes"@,
        CHANGE_TASK_WALK@.len() == 2,
        CHANGE_TASK_WALK@[0]@ == "change_request.number"@,
        CHANGE_TASK_WALK@[1]@ == "change_request.sys_class_name"@,
{
}

/// What is read of a scrum task, and of its story.
pub proof fn scrum_tasks_are_read_with_their_story()
    ensures
        SCRUM_TASK_FIELDS@.len() == 9,
        SCRUM_TASK_FIELDS@[0]@ == "sys_id"@,
        SCRUM_TASK_FIELDS@[1]@ == "number"@,
        SCRUM_TASK_FIELDS@[2]@ == "short_description"@,
        SCRUM_TASK_FIELDS@[3]@ == "description"@,
        SCRUM_TASK_FIELDS@[4]@ == "state"@,
        SCRUM_TASK_FIELDS@[5]@ == "assigned_to"@,
        SCRUM_TASK_FIELDS@[6]@ == "due_date"@,
        SCRUM_TASK_FIELDS@[7]@ == "story"@,
        SCRUM_TASK_FIELDS@[8]@ == "work_notes"@,
        SCRUM_TASK_WALK@.len() == 2,
        SCRUM_TASK_WALK@[0]@ == "story.number"@,
        SCRUM_TASK_WALK@[1]@ == "story.sys_class_name"@,
{
}

/// What is read of a story and of an incident of a user.
pub proof fn stories_and_incidents_are_read_with_their_state()
    ensures
        STORY_FIELDS@.len() == 10,
        STORY_FIELDS@[0]@ == "sys_id"@,
        STORY_FIELDS@[1]@ == "number"@,
        STORY_FIELDS@[2]@ == "short_description"@,
        STORY_FIELDS@[3]@ == "description"@,
        STORY_FIELDS@[4]@ == "state"@,
        STORY_FIELDS@[5]@ == "assigned_to"@,
        STORY_FIELDS@[6]@ == "story_points"@,
        STORY_FIELDS@[7]@ == "sprint"@,
        STORY_FIELDS@[8]@ == "start_date"@,
        STORY_FIELDS@[9]@ == "work_notes"@,
        INCIDENT_FIELDS@.len() == 10,
        INCIDENT_FIELDS@[0]@ == "sys_id"@,
        INCIDENT_FIELDS@[1]@ == "number"@,
        INCIDENT_FIELDS@[2]@ == "short_description"@,
        INCIDENT_FIELDS@[3]@ == "description"@,
        INCIDENT_FIELDS@[4]@ == "state"@,
        INCIDENT_FIELDS@[5]@ == "priority"@,
        INCIDENT_FIELDS@[6]@ == "opened_at"@,
        INCIDENT_FIELDS@[7]@ == "assigned_to"@,
        INCIDENT_FIELDS@[8]@ == "active"@,
        INCIDENT_FIELDS@[9]@ == "work_notes"@,
{
}

/// What is read of a project and of a demand of a user.
pub proof fn projects_and_demands_are_read_with_their_dates()
    ensures
        PROJECT_FIELDS@.len() == 11,
        PROJECT_FIELDS@[0]@ == "sys_id"@,
        PROJECT_FIELDS@[1]@ == "number"@,
        PROJECT_FIELDS@[2]@ == "name"@,
        PROJECT_FIELDS@[3]@ == "short_description"@,
        PROJECT_FIELDS@[4]@ == "description"@,
        PROJECT_FIELDS@[5]@ == "state"@,
        PROJECT_FIELDS@[6]@ == "project_manager"@,
        PROJECT_FIELDS@[7]@ == "start_date"@,
        PROJECT_FIELDS@[8]@ == "end_date"@,
        PROJECT_FIELDS@[9]@ == "percent_complete"@,
        PROJECT_FIELDS@[10]@ == "work_notes"@,
        DEMAND_FIELDS@.len() == 12,
        DEMAND_FIELDS@[0]@ == "sys_id"@,
        DEMAND_FIELDS@[1]@ == "number"@,
        DEMAND_FIELDS@[2]@ == "short_description"@,
        DEMAND_FIELDS@[3]@ == "description"@,
        DEMAND_FIELDS@[4]@ == "state"@,
        DEMAND_FIELDS@[5]@ == "priority"@,
        DEMAND_FIELDS@[6]@ == "requested_by"@,
        DEMAND_FIELDS@[7]@ == "demand_manager"@,
        DEMAND_FIELDS@[8]@ == "start_date"@,
        DEMAND_FIELDS@[9]@ == "end_date"@,
        DEMAND_FIELDS@[10]@ == "business_case"@,
        DEMAND_FIELDS@[11]@ == "work_notes"@,
{
}

} // verus!
