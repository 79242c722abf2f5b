//! Time cards: which sheet belongs to a week, and who may write.
use vstd::prelude::*;
use vstd::string::*;

use crate::article::{blank, is_blank};
use crate::listing::{lemma_filter_ends, lemma_filter_step};
use crate::query::{DisplayMode, Query, QueryView};
use crate::row::{Failure, Row, RowView};
use crate::text::{
    chars_of, joined, joined3, names_of, or_empty, owned_or_empty, same, slice_string, strings_of,
    text_of_ref, trim, trim_text,
};
use crate::timestamp::{date_day, parse_date};

verus! {

pub const TIME_SHEET_FIELDS: [&'static str; 7] = [
    "sys_id",
    "user",
    "user.user_name",
    "user.email",
    "user.name",
    "week_starts_on",
    "state",
];

pub const TIME_CARD_FIELDS: [&'static str; 23] = [
    "sys_id",
    "time_sheet",
    "week_starts_on",
    "user",
    "user.user_name",
    "user.email",
    "user.name",
    "task",
    "task.number",
    "task.sys_class_name",
    "category",
    "project_time_category",
    "sunday",
    "monday",
    "tuesday",
    "wednesday",
    "thursday",
    "friday",
    "saturday",
    "total",
    "state",
    "sys_updated_on",
    "sys_mod_count",
];

// --- the sheet of a week ---

/// The query for the latest sheets of a user.
pub fn sheet_query(sheet_table: &str, user_sys_id: &str) -> (r: Query)
    ensures
        r@ == QueryView::of(sheet_table@).equals("user"@, user_sys_id@).fields(
            names_of(TIME_SHEET_FIELDS@),
        ).display(DisplayMode::Both).descending("week_starts_on"@).limit(80),
{
    Query::of(sheet_table).equals("user", user_sys_id).fields(
        &strings_of(&TIME_SHEET_FIELDS),
    ).display(DisplayMode::Both).descending("week_starts_on").limit(80)
}

/// The text that says when the week of a sheet starts: raw, else as shown.
pub open spec fn week_text(row: RowView) -> Option<Seq<char>> {
    match row.raw("week_starts_on"@) {
        Some(t) => Some(t),
        None => row.shown("week_starts_on"@),
    }
}

pub fn week_start_text(row: &Row) -> (r: Option<&str>)
    ensures
        text_of_ref(r) == week_text(row@),
{
    match row.get_raw("week_starts_on") {
        Some(t) => Some(t),
        None => row.get_str("week_starts_on"),
    }
}

/// The day that a text of the provider begins with.
pub open spec fn leading_day(text: Seq<char>) -> Option<i32> {
    let t = trim(text);
    if t.len() < 10 {
        None
    } else {
        date_day(t.subrange(0, 10))
    }
}

fn read_leading_day(text: &str) -> (r: Option<i32>)
    ensures
        r == leading_day(text@),
{
    let t: Vec<char> = chars_of(trim_text(text).as_str());
    if t.len() < 10 {
        None
    } else {
        parse_date(slice_string(&t, 0, 10).as_str())
    }
}

/// The day on which the week of a sheet starts.
pub open spec fn week_start(row: RowView) -> Option<i32> {
    match week_text(row) {
        Some(t) => leading_day(t),
        None => None,
    }
}

pub open spec fn week_starts(rows: Seq<Row>) -> Seq<Option<i32>> {
    rows.map_values(|row: Row| week_start(row@))
}

/// Which week is meant: that of today, or that of a day, under the text that names
/// the day.
#[derive(Debug, Clone, PartialEq, Eq)]
pub enum WeekSelector {
    Current,
    Date { day: i32, label: String },
}

impl WeekSelector {
    pub open spec fn wanted_day(self, today: i32) -> i32 {
        match self {
            WeekSelector::Current => today,
            WeekSelector::Date { day, .. } => day,
        }
    }

    pub open spec fn label_text(self) -> Seq<char> {
        match self {
            WeekSelector::Current => "current week"@,
            WeekSelector::Date { label, .. } => label@,
        }
    }
}

/// Whether a day lies in the seven days from the start of a week. Days are
/// counted from a fixed day; a start that could not be read starts no week.
pub open spec fn in_week(start: Option<i32>, day: i32) -> bool {
    start is Some && start->0 <= day < start->0 + 7
}

/// The first sheet whose week holds the day.
pub open spec fn sheet_place(starts: Seq<Option<i32>>, day: i32, i: int) -> Option<int>
    decreases starts.len() - i,
{
    if i >= starts.len() {
        None
    } else if in_week(starts[i], day) {
        Some(i)
    } else {
        sheet_place(starts, day, i + 1)
    }
}

pub open spec fn no_sheet(label: Seq<char>) -> Seq<char> {
    "No time sheet found for "@ + label
        + ". This command edits existing cards only; create them in the portal first."@
}

/// Finds the sheet of a day among the days on which the weeks start. On which day
/// of the week that is does not matter.
pub fn find_week(starts: &Vec<Option<i32>>, day: i32, label: &str) -> (r: Result<usize, String>)
    ensures
        match r {
            Ok(i) => i < starts@.len() && sheet_place(starts@, day, 0) == Some(i as int),
            Err(e) => sheet_place(starts@, day, 0) is None && e@ == no_sheet(label@),
        },
{
    let mut i: usize = 0;
    while i < starts.len()
        invariant
            i <= starts@.len(),
            sheet_place(starts@, day, 0) == sheet_place(starts@, day, i as int),
        decreases starts@.len() - i,
    {
        let inside: bool = match starts[i] {
            Some(s) => s <= day && (day as i64) < (s as i64) + 7,
            None => false,
        };
        if inside {
            return Ok(i);
        }
        i += 1;
    }
    Err(
        joined3(
            "No time sheet found for ",
            label,
            ". This command edits existing cards only; create them in the portal first.",
        ),
    )
}

/// Finds the sheet of the week that is meant.
pub fn find_sheet(rows: &Vec<Row>, week: &WeekSelector, today: i32) -> (r: Result<usize, String>)
    ensures
        ({
            let place = sheet_place(week_starts(rows@), week.wanted_day(today), 0);
            match r {
                Ok(i) => i < rows@.len() && place == Some(i as int),
                Err(e) => place is None && e@ == no_sheet(week.label_text()),
            }
        }),
{
    let mut starts: Vec<Option<i32>> = Vec::new();
    let mut i: usize = 0;
    while i < rows.len()
        invariant
            i <= rows@.len(),
            starts@ == week_starts(rows@.subrange(0, i as int)),
        decreases rows@.len() - i,
    {
        let start: Option<i32> = match week_start_text(&rows[i]) {
            Some(t) => read_leading_day(t),
            None => None,
        };
        starts.push(start);
        i += 1;
        assert(starts@ =~= week_starts(rows@.subrange(0, i as int)));
    }
    assert(rows@.subrange(0, i as int) =~= rows@);
    match week {
        WeekSelector::Current => find_week(&starts, today, "current week"),
        WeekSelector::Date { day, label } => find_week(&starts, *day, label.as_str()),
    }
}

/// The sheet that is found is that of the day: its week holds it, and no sheet
/// before it does.
pub proof fn found_sheets_hold_the_day(starts: Seq<Option<i32>>, day: i32, from: int)
    requires
        0 <= from,
    ensures
        match sheet_place(starts, day, from) {
            Some(i) => {
                &&& from <= i < starts.len()
                &&& in_week(starts[i], day)
                &&& forall|k: int| from <= k < i ==> !in_week(#[trigger] starts[k], day)
            },
            None => forall|k: int| from <= k < starts.len() ==> !in_week(#[trigger] starts[k], day),
        },
    decreases starts.len() - from,
{
    if from < starts.len() && !in_week(starts[from], day) {
        found_sheets_hold_the_day(starts, day, from + 1);
    }
}

/// A reference with its label.
#[derive(Debug, Clone, PartialEq, Eq)]
pub struct SimpleRef {
    pub sys_id: String,
    pub table: String,
    pub display: String,
}

/// What is read of a sheet.
pub struct SheetHead {
    pub sheet: SimpleRef,
    pub week_starts_on: String,
    pub state: String,
}

/// Reads a sheet.
pub fn read_sheet(row: &Row, sheet_table: &str) -> (r: SheetHead)
    ensures
        r.sheet.sys_id == row.sys_id,
        r.sheet.table@ == sheet_table@,
        r.sheet.display@ == (match row@.shown("week_starts_on"@) {
            Some(t) => t,
            None => row@.sys_id,
        }),
        r.week_starts_on@ == or_empty(week_text(row@)),
        r.state@ == or_empty(row@.shown("state"@)),
{
    SheetHead {
        sheet: SimpleRef {
            sys_id: row.sys_id.clone(),
            table: sheet_table.to_owned(),
            display: match row.get_str("week_starts_on") {
                Some(t) => t.to_owned(),
                None => row.sys_id.clone(),
            },
        },
        week_starts_on: owned_or_empty(week_start_text(row)),
        state: owned_or_empty(row.get_str("state")),
    }
}

// --- the cards of a sheet ---

/// The query for the cards of a sheet.
pub fn sheet_cards_query(card_table: &str, sheet_sys_id: &str) -> (r: Query)
    ensures
        r@ == QueryView::of(card_table@).equals("time_sheet"@, sheet_sys_id@).fields(
            names_of(TIME_CARD_FIELDS@),
        ).display(DisplayMode::Both).ascending("task"@).limit(500),
{
    Query::of(card_table).equals("time_sheet", sheet_sys_id).fields(
        &strings_of(&TIME_CARD_FIELDS),
    ).display(DisplayMode::Both).ascending("task").limit(500)
}

/// The query that is tried where a sheet has no cards: the cards of the user in
/// that week. Without a week there is none.
pub fn week_cards_query(
    card_table: &str,
    user_sys_id: &str,
    week_starts_on: &str,
    sheet_has_cards: bool,
) -> (r: Option<Query>)
    ensures
        match r {
            Some(q) => !sheet_has_cards && !is_blank(week_starts_on@) && q@ == QueryView::of(
                card_table@,
            ).equals("user"@, user_sys_id@).equals("week_starts_on"@, week_starts_on@).fields(
                names_of(TIME_CARD_FIELDS@),
            ).display(DisplayMode::Both).ascending("task"@).limit(500),
            None => sheet_has_cards || is_blank(week_starts_on@),
        },
{
    if sheet_has_cards || blank(week_starts_on) {
        return None;
    }
    Some(
        Query::of(card_table).equals("user", user_sys_id).equals(
            "week_starts_on",
            week_starts_on,
        ).fields(&strings_of(&TIME_CARD_FIELDS)).display(DisplayMode::Both).ascending(
            "task",
        ).limit(500),
    )
}

/// What is known of a card: `editable` says whether its sheet can still be
/// changed.
#[derive(Debug, Clone, PartialEq, Eq)]
pub struct TimeCard {
    pub sys_id: String,
    pub user_sys_id: String,
    pub state: String,
    pub editable: bool,
}

pub open spec fn owned_by(user: Seq<char>) -> spec_fn(TimeCard) -> bool {
    |card: TimeCard| card.user_sys_id@ == user
}

/// The cards of one user, in their order.
pub fn cards_of_user(cards: Vec<TimeCard>, user_sys_id: &str) -> (r: Vec<TimeCard>)
    ensures
        r@ == cards@.filter(owned_by(user_sys_id@)),
{
    let ghost all = cards@;
    let ghost keep = owned_by(user_sys_id@);
    let mut rest: Vec<TimeCard> = cards;
    let mut out: Vec<TimeCard> = Vec::new();
    let ghost mut done: int = 0;
    proof {
        lemma_filter_ends(all, keep);
    }
    while rest.len() > 0
        invariant
            0 <= done <= all.len(),
            keep == owned_by(user_sys_id@),
            rest@ == all.subrange(done, all.len() as int),
            out@ == all.subrange(0, done).filter(keep),
        decreases rest@.len(),
    {
        let card: TimeCard = rest.remove(0);
        proof {
            assert(card == all[done]);
            lemma_filter_step(all, keep, done);
            done = done + 1;
            assert(rest@ =~= all.subrange(done, all.len() as int));
        }
        if same(card.user_sys_id.as_str(), user_sys_id) {
            out.push(card);
        }
    }
    assert(all.subrange(0, done) =~= all);
    out
}

// --- writing hours ---

/// The id of a card that is read.
pub fn card_id(sys_id: &str) -> (r: Result<String, String>)
    ensures
        match r {
            Ok(id) => trim(sys_id@).len() > 0 && id@ == trim(sys_id@),
            Err(e) => trim(sys_id@).len() == 0 && e@ == "time card sys_id cannot be empty"@,
        },
{
    let id: String = trim_text(sys_id);
    if id.as_str().unicode_len() == 0 {
        Err("time card sys_id cannot be empty".to_owned())
    } else {
        Ok(id)
    }
}

/// The form that one card is read in by its id.
pub fn card_form(card_table: &str) -> (r: Query)
    ensures
        r@ == QueryView::of(card_table@).fields(names_of(TIME_CARD_FIELDS@)).display(
            DisplayMode::Both,
        ),
{
    Query::of(card_table).fields(&strings_of(&TIME_CARD_FIELDS)).display(DisplayMode::Both)
}

/// What a read of a card brought: that there is none is no failure.
pub fn judge_card_read(reply: Result<Row, Failure>) -> (r: Result<Option<Row>, Failure>)
    ensures
        match reply {
            Ok(row) => r == Ok::<Option<Row>, Failure>(Some(row)),
            Err(f) => r == (if f == Failure::Api(404) {
                Ok::<Option<Row>, Failure>(None)
            } else {
                Err(f)
            }),
        },
{
    match reply {
        Ok(row) => Ok(Some(row)),
        Err(Failure::Api(404)) => Ok(None),
        Err(f) => Err(f),
    }
}

/// Why a user may not write a card, if so.
pub open spec fn write_refusal(card: TimeCard, actor: Seq<char>) -> Option<Seq<char>> {
    if card.user_sys_id@ != actor {
        Some(
            "time card "@ + card.sys_id@ + " belongs to user "@ + card.user_sys_id@
                + ", not the authenticated user"@,
        )
    } else if !card.editable {
        Some("time card sheet is "@ + card.state@ + "; recall it in the portal to edit"@)
    } else {
        None
    }
}

/// Checks that a user may write a card: it is the user's own, and its sheet can
/// still be changed.
pub fn ensure_timecard_write_allowed(card: &TimeCard, actor_sys_id: &str) -> (r: Result<(), String>)
    ensures
        match r {
            Ok(_) => write_refusal(*card, actor_sys_id@) is None,
            Err(e) => write_refusal(*card, actor_sys_id@) == Some(e@),
        },
{
    if !same(card.user_sys_id.as_str(), actor_sys_id) {
        let mut e: String = "time card ".to_owned();
        e.append(card.sys_id.as_str());
        e.append(" belongs to user ");
        e.append(card.user_sys_id.as_str());
        e.append(", not the authenticated user");
        return Err(e);
    }
    if !card.editable {
        return Err(
            joined3(
                "time card sheet is ",
                card.state.as_str(),
                "; recall it in the portal to edit",
            ),
        );
    }
    Ok(())
}

/// Nobody may write the card of another user, whatever its state.
pub proof fn cards_of_others_are_not_written(card: TimeCard, actor: Seq<char>)
    ensures
        write_refusal(card, actor) is None <==> card.user_sys_id@ == actor && card.editable,
{
}

/// Checks the card that was read again after a write. The id is compared
/// trimmed.
pub fn check_updated_card(updated: Option<&TimeCard>, sys_id: &str) -> (r: Result<(), String>)
    ensures
        match updated {
            None => r is Err && r->Err_0@ == "time card disappeared after update: "@ + sys_id@,
            Some(card) => if card.sys_id@ == trim(sys_id@) {
                r is Ok
            } else {
                r is Err && r->Err_0@ == "time card update refetched sys_id "@ + card.sys_id@
                    + ", expected "@ + sys_id@
            },
        },
{
    match updated {
        None => Err(joined("time card disappeared after update: ", sys_id)),
        Some(card) => {
            let expected: String = trim_text(sys_id);
            if same(card.sys_id.as_str(), expected.as_str()) {
                Ok(())
            } else {
                let mut e: String = "time card update refetched sys_id ".to_owned();
                e.append(card.sys_id.as_str());
                e.append(", expected ");
                e.append(sys_id);
                Err(e)
            }
        },
    }
}

} // verus!
