//! Open work, and pages of rows that are read by cursor.
use vstd::prelude::*;

use crate::listing::{
    lemma_filter_complete, lemma_filter_ends, lemma_filter_sound, lemma_filter_step,
};
use crate::row::{row_views, Row, RowView};
use crate::text::{
    lemma_text_order, list_has, lower, lower_text, same, text_less, text_of, texts, trim, trim_text,
};

verus! {

/// The ways in which a field says no.
pub open spec fn says_no(value: Seq<char>) -> bool {
    let v = lower(trim(value));
    v == "false"@ || v == "0"@ || v == "no"@
}

pub fn is_no(value: &str) -> (r: bool)
    ensures
        r == says_no(value@),
{
    let trimmed: String = trim_text(value);
    let lowered: String = lower_text(trimmed.as_str());
    same(lowered.as_str(), "false") || same(lowered.as_str(), "0") || same(lowered.as_str(), "no")
}

/// A field says no if its raw value or its display value does.
pub open spec fn field_says_no(row: RowView, field: Seq<char>) -> bool {
    (row.raw(field) is Some && says_no(row.raw(field)->0)) || (row.display(field) is Some
        && says_no(row.display(field)->0))
}

pub fn row_field_is_false(row: &Row, field: &str) -> (r: bool)
    ensures
        r == field_says_no(row@, field@),
{
    let raw: bool = match row.get_raw(field) {
        Some(v) => is_no(v),
        None => false,
    };
    let display: bool = match row.get_display(field) {
        Some(v) => is_no(v),
        None => false,
    };
    raw || display
}

/// Whether a state ends a record's life. `terminal` names such states in small letters.
pub open spec fn is_terminal(state: Option<Seq<char>>, terminal: Seq<Seq<char>>) -> bool {
    state is Some && terminal.contains(lower(trim(state->0)))
}

pub fn is_terminal_state(state: Option<&str>, terminal: &Vec<String>) -> (r: bool)
    ensures
        r == is_terminal(crate::text::text_of_ref(state), texts(terminal@)),
{
    match state {
        Some(s) => {
            let trimmed: String = trim_text(s);
            let lowered: String = lower_text(trimmed.as_str());
            list_has(terminal, lowered.as_str())
        },
        None => false,
    }
}

/// A row is open work unless its state is terminal or it says that it is not active.
pub open spec fn is_open(row: RowView, terminal: Seq<Seq<char>>) -> bool {
    !is_terminal(row.shown("state"@), terminal) && !field_says_no(row, "active"@)
}

pub open spec fn open_rows(terminal: Seq<Seq<char>>) -> spec_fn(RowView) -> bool {
    |row: RowView| is_open(row, terminal)
}

pub fn row_is_open(row: &Row, terminal: &Vec<String>) -> (r: bool)
    ensures
        r == is_open(row@, texts(terminal@)),
{
    let state: Option<&str> = row.get_str("state");
    !is_terminal_state(state, terminal) && !row_field_is_false(row, "active")
}

/// The rows that are open work, in their order.
pub fn keep_open(rows: &Vec<Row>, terminal: &Vec<String>) -> (r: Vec<Row>)
    ensures
        row_views(r@) == row_views(rows@).filter(open_rows(texts(terminal@))),
{
    let ghost all = row_views(rows@);
    let ghost keep = open_rows(texts(terminal@));
    let mut out: Vec<Row> = Vec::new();
    let mut i: usize = 0;
    proof {
        lemma_filter_ends(all, keep);
        assert(row_views(out@) =~= Seq::empty());
    }
    while i < rows.len()
        invariant
            i <= rows@.len(),
            all == row_views(rows@),
            keep == open_rows(texts(terminal@)),
            row_views(out@) == all.subrange(0, i as int).filter(keep),
        decreases rows@.len() - i,
    {
        proof {
            lemma_filter_step(all, keep, i as int);
        }
        if row_is_open(&rows[i], terminal) {
            let ghost before = out@;
            out.push(rows[i].copy());
            assert(row_views(out@) =~= row_views(before).push(rows@[i as int]@));
        }
        i += 1;
    }
    proof {
        lemma_filter_ends(all, keep);
    }
    out
}

/// Where a page by cursor stands: whether it is the last one, and, if not, the
/// row behind which the next one begins.
pub struct PageMark {
    pub rows_inspected: usize,
    pub complete: bool,
    pub next_cursor: Option<String>,
}

/// A page that brought fewer rows than it may hold is the last one. Any other
/// goes on behind the last row that was inspected, whatever became of that row.
pub open spec fn marks(mark: PageMark, rows: Seq<RowView>, limit: int) -> bool {
    &&& mark.rows_inspected == rows.len()
    &&& mark.complete == (rows.len() < limit)
    &&& text_of(mark.next_cursor) == next_cursor_of(rows, limit)
}

pub fn page_mark(rows: &Vec<Row>, limit: usize) -> (mark: PageMark)
    ensures
        marks(mark, row_views(rows@), limit as int),
{
    let count: usize = rows.len();
    let complete: bool = count < limit;
    let next_cursor: Option<String> = if complete || count == 0 {
        None
    } else {
        assert(row_views(rows@).last() == rows@[count - 1]@);
        Some(rows[count - 1].sys_id.clone())
    };
    PageMark { rows_inspected: count, complete, next_cursor }
}

/// A page by cursor always moves on: unless it is the last one, its cursor is the
/// last row that was inspected, even where every row of it was rejected.
pub proof fn pages_move_on(mark: PageMark, rows: Seq<RowView>, limit: int, terminal: Seq<Seq<char>>)
    requires
        marks(mark, rows, limit),
        limit > 0,
    ensures
        !mark.complete ==> text_of(mark.next_cursor) == Some(rows.last().sys_id),
        mark.complete ==> mark.next_cursor is None,
        rows.filter(open_rows(terminal)).len() <= mark.rows_inspected,
{
    lemma_filter_sound(rows, open_rows(terminal));
}

/// The rows of a table come with ascending ids.
pub open spec fn rows_ascend(table: Seq<RowView>) -> bool {
    forall|i: int, j: int|
        0 <= i < j < table.len() ==> text_less(
            (#[trigger] table[i]).sys_id,
            (#[trigger] table[j]).sys_id,
        )
}

pub open spec fn is_behind(cursor: Option<Seq<char>>) -> spec_fn(RowView) -> bool {
    |row: RowView| cursor is Some ==> text_less(cursor->0, row.sys_id)
}

/// The rows of a table behind a cursor.
pub open spec fn rows_behind(table: Seq<RowView>, cursor: Option<Seq<char>>) -> Seq<RowView> {
    table.filter(is_behind(cursor))
}

/// The page of a table behind a cursor.
pub open spec fn page_behind(table: Seq<RowView>, cursor: Option<Seq<char>>, limit: int) -> Seq<
    RowView,
> {
    let rows = rows_behind(table, cursor);
    rows.subrange(
        0,
        if limit < rows.len() {
            limit
        } else {
            rows.len() as int
        },
    )
}

/// The cursor that a page is marked with.
pub open spec fn next_cursor_of(rows: Seq<RowView>, limit: int) -> Option<Seq<char>> {
    if rows.len() < limit || rows.len() == 0 {
        None
    } else {
        Some(rows.last().sys_id)
    }
}

/// The rows of the pages that are read one behind the other, from a cursor on.
pub open spec fn rows_followed(table: Seq<RowView>, cursor: Option<Seq<char>>, limit: int) -> Seq<
    RowView,
>
    decreases rows_behind(table, cursor).len(),
{
    let page = page_behind(table, cursor, limit);
    let next = next_cursor_of(page, limit);
    if next is Some && rows_behind(table, next).len() < rows_behind(table, cursor).len() {
        page + rows_followed(table, next, limit)
    } else {
        page
    }
}

/// Behind a cursor stands the end of the table.
proof fn lemma_behind_is_end(table: Seq<RowView>, cursor: Option<Seq<char>>) -> (from: int)
    requires
        rows_ascend(table),
    ensures
        0 <= from <= table.len(),
        rows_behind(table, cursor) == table.subrange(from, table.len() as int),
    decreases table.len(),
{
    reveal(Seq::filter);
    if table.len() == 0 {
        assert(rows_behind(table, cursor) =~= table.subrange(0, 0));
        0
    } else {
        let front = table.drop_last();
        let last = table.last();
        let from = lemma_behind_is_end(front, cursor);
        lemma_filter_sound(front, is_behind(cursor));
        if is_behind(cursor)(last) {
            assert(rows_behind(table, cursor) =~= table.subrange(from, table.len() as int));
            from
        } else {
            if from < front.len() {
                let row = rows_behind(front, cursor)[0];
                assert(row == front[from]);
                assert(is_behind(cursor)(row));
                assert(text_less(table[from].sys_id, table[table.len() - 1].sys_id));
                lemma_text_order(cursor->0, row.sys_id, last.sys_id);
            }
            assert(rows_behind(table, cursor) =~= table.subrange(
                table.len() as int,
                table.len() as int,
            ));
            table.len() as int
        }
    }
}

/// Behind the row at an index stand the rows after it.
proof fn lemma_behind_row(table: Seq<RowView>, at: int)
    requires
        rows_ascend(table),
        0 <= at < table.len(),
    ensures
        rows_behind(table, Some(table[at].sys_id)) == table.subrange(at + 1, table.len() as int),
{
    let cursor = Some(table[at].sys_id);
    let from = lemma_behind_is_end(table, cursor);
    let rest = table.subrange(from, table.len() as int);
    lemma_filter_sound(table, is_behind(cursor));
    lemma_text_order(table[at].sys_id, table[at].sys_id, table[at].sys_id);
    if from <= at {
        assert(rest[at - from] == table[at]);
        assert(is_behind(cursor)(rows_behind(table, cursor)[at - from]));
    }
    if from > at + 1 {
        let row = table[at + 1];
        assert(text_less(table[at].sys_id, table[at + 1].sys_id));
        lemma_filter_complete(table, is_behind(cursor), row);
        assert(is_behind(cursor)(row));
        assert(rows_behind(table, cursor).contains(row));
        let k = choose|k: int| 0 <= k < rest.len() && rest[k] == row;
        assert(rest[k] == table[from + k]);
        assert(text_less(table[at + 1].sys_id, table[from + k].sys_id));
        lemma_text_order(row.sys_id, row.sys_id, row.sys_id);
    }
}

/// Behind no cursor stands the whole table.
proof fn lemma_behind_nothing(table: Seq<RowView>)
    ensures
        rows_behind(table, None) == table,
    decreases table.len(),
{
    reveal(Seq::filter);
    if table.len() > 0 {
        lemma_behind_nothing(table.drop_last());
        assert(is_behind(None)(table.last()));
        assert(table.drop_last().push(table.last()) =~= table);
    } else {
        assert(rows_behind(table, None) =~= table);
    }
}

/// Behind the cursor of a full page stand the rows that the page left out.
proof fn lemma_behind_page(table: Seq<RowView>, cursor: Option<Seq<char>>, limit: int)
    requires
        rows_ascend(table),
        0 < limit <= rows_behind(table, cursor).len(),
    ensures
        next_cursor_of(page_behind(table, cursor, limit), limit) == Some(
            rows_behind(table, cursor)[limit - 1].sys_id,
        ),
        rows_behind(table, Some(rows_behind(table, cursor)[limit - 1].sys_id)) == rows_behind(
            table,
            cursor,
        ).subrange(limit, rows_behind(table, cursor).len() as int),
{
    let from = lemma_behind_is_end(table, cursor);
    let rows = rows_behind(table, cursor);
    let page = page_behind(table, cursor, limit);
    assert(page.last() == rows[limit - 1]);
    assert(rows[limit - 1] == table[from + limit - 1]);
    lemma_behind_row(table, from + limit - 1);
    assert(table.subrange(from + limit, table.len() as int) =~= rows.subrange(
        limit,
        rows.len() as int,
    ));
}

/// The pages of a table, read one behind the other by their cursors, give every row
/// behind the first cursor, each once and in order; without a cursor, the whole table.
pub proof fn pages_by_cursor_cover(table: Seq<RowView>, cursor: Option<Seq<char>>, limit: int)
    requires
        rows_ascend(table),
        limit > 0,
    ensures
        rows_followed(table, cursor, limit) == rows_behind(table, cursor),
        rows_behind(table, None) == table,
    decreases rows_behind(table, cursor).len(),
{
    lemma_behind_nothing(table);
    let rows = rows_behind(table, cursor);
    let page = page_behind(table, cursor, limit);
    if limit <= rows.len() {
        lemma_behind_page(table, cursor, limit);
        let next = Some(rows[limit - 1].sys_id);
        pages_by_cursor_cover(table, next, limit);
        assert(page + rows.subrange(limit, rows.len() as int) =~= rows);
    } else {
        assert(page =~= rows);
    }
}

} // verus!
