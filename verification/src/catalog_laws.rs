//! Laws of the catalog, of orders from it, and of time cards.
use vstd::prelude::*;

use crate::article::is_blank;
use crate::catalog_items::{
    all_fresh, choice_of, choices_for, clamped, display_or_raw, first_records, is_choice_for,
    is_earliest, is_variable_of, named_sets, not_blank, raw_or_display, record_listed,
    unless_blank, variable_query, CatalogVariable, CATALOG_ITEM_FIELDS, CATALOG_VARIABLE_FIELDS,
    CHOICE_FIELDS, VARIABLE_SET_FIELDS,
};
use crate::catalog_request::{
    given_table, item_number_of, item_sys_id_of, reply_item, request_id_of, request_number_of,
    reread_of, submit_view, ticket_url, CatalogReply, SubmitView,
};
use crate::knowledge_refresh::without_end_slashes;
use crate::knowledge_service::still_fresh;
use crate::knowledge_sync::Moment;
use crate::listing::lemma_filter_keeps;
use crate::number::number_of;
use crate::query::{DisplayMode, SortKeyView};
use crate::row::{Row, RowView};
use crate::selection::{among, group_selection, selects, Held};
use crate::tables::record_table;
use crate::text::{has_prefix, names_of, text_of, trim, upper};
use crate::timecard::{
    in_week, leading_day, owned_by, week_start, week_text, write_refusal, TimeCard, WeekSelector,
    TIME_CARD_FIELDS, TIME_SHEET_FIELDS,
};
use crate::timestamp::date_day;
use crate::user::{field_truth, given};

verus! {

/// A search among the items brings from one to fifty of them.
pub proof fn item_searches_bring_up_to_fifty(limit: u32)
    ensures
        1 <= clamped(limit) <= 50,
        1 <= limit <= 50 ==> clamped(limit) == limit,
        limit > 50 ==> clamped(limit) == 50,
        limit == 0 ==> clamped(limit) == 1,
{
}

/// Variables are asked for by one value of a field or by several, and only the active ones
/// where those are wanted; they come in their order.
pub proof fn variables_are_asked_for_by_owner(
    field: Seq<char>,
    values: Seq<Seq<char>>,
    active_only: bool,
    held: Held,
)
    requires
        values.len() > 0,
    ensures
        ({
            let q = variable_query(field, values, active_only);
            &&& selects(q, held) <==> {
                &&& values.len() == 1 ==> held(field) == values[0]
                &&& values.len() > 1 ==> among(held(field), values)
                &&& active_only ==> held("active"@) == "true"@
            }
            &&& q.table == "item_option_new"@
            &&& q.fields == names_of(CATALOG_VARIABLE_FIELDS@)
            &&& q.order == seq![SortKeyView { field: "order"@, descending: false }]
            &&& q.limit == Some(1000u32)
            &&& q.display == DisplayMode::Both
        }),
{
    broadcast use group_selection;

    reveal(variable_query);
    let q = variable_query(field, values, active_only);
    assert(q.fields =~= names_of(CATALOG_VARIABLE_FIELDS@));
    assert(q.order =~= seq![SortKeyView { field: "order"@, descending: false }]);
}

/// What is read of an item, of a variable, of a set of variables and of a choice.
pub proof fn catalogs_are_read_with_their_labels()
    ensures
        CATALOG_ITEM_FIELDS@.len() == 5,
        CATALOG_ITEM_FIELDS@[0]@ == "sys_id"@,
        CATALOG_ITEM_FIELDS@[1]@ == "name"@,
        CATALOG_ITEM_FIELDS@[2]@ == "short_description"@,
        CATALOG_ITEM_FIELDS@[3]@ == "sys_class_name"@,
        CATALOG_ITEM_FIELDS@[4]@ == "active"@,
        CATALOG_VARIABLE_FIELDS@.len() == 12,
        CATALOG_VARIABLE_FIELDS@[0]@ == "sys_id"@,
        CATALOG_VARIABLE_FIELDS@[1]@ == "name"@,
        CATALOG_VARIABLE_FIELDS@[2]@ == "question_text"@,
        CATALOG_VARIABLE_FIELDS@[3]@ == "type"@,
        CATALOG_VARIABLE_FIELDS@[4]@ == "mandatory"@,
        CATALOG_VARIABLE_FIELDS@[5]@ == "default_value"@,
        CATALOG_VARIABLE_FIELDS@[6]@ == "reference"@,
        CATALOG_VARIABLE_FIELDS@[7]@ == "lookup_table"@,
        CATALOG_VARIABLE_FIELDS@[8]@ == "list_table"@,
        CATALOG_VARIABLE_FIELDS@[9]@ == "max_length"@,
        CATALOG_VARIABLE_FIELDS@[10]@ == "order"@,
        CATALOG_VARIABLE_FIELDS@[11]@ == "active"@,
        VARIABLE_SET_FIELDS@.len() == 3,
        VARIABLE_SET_FIELDS@[0]@ == "sys_id"@,
        VARIABLE_SET_FIELDS@[1]@ == "variable_set"@,
        VARIABLE_SET_FIELDS@[2]@ == "order"@,
        CHOICE_FIELDS@.len() == 5,
        CHOICE_FIELDS@[0]@ == "sys_id"@,
        CHOICE_FIELDS@[1]@ == "question"@,
        CHOICE_FIELDS@[2]@ == "value"@,
        CHOICE_FIELDS@[3]@ == "text"@,
        CHOICE_FIELDS@[4]@ == "order"@,
{
}

/// A field is read raw, else as shown; or as shown, else raw.
pub proof fn fields_are_read_either_way(row: RowView, field: Seq<char>)
    ensures
        row.raw(field) is Some ==> raw_or_display(row, field) == row.raw(field),
        row.raw(field) is None ==> raw_or_display(row, field) == row.display(field),
        row.display(field) is Some ==> display_or_raw(row, field) == row.display(field),
        row.display(field) is None ==> display_or_raw(row, field) == row.raw(field),
{
}

/// A choice has the value of its row, and its text as the label; without a text the value
/// is the label.
pub proof fn choices_have_a_value_and_a_label(row: RowView)
    ensures
        raw_or_display(row, "value"@) is Some ==> choice_of(row).value == raw_or_display(
            row,
            "value"@,
        )->0,
        raw_or_display(row, "value"@) is None ==> choice_of(row).value.len() == 0,
        display_or_raw(row, "text"@) is Some ==> choice_of(row).label == display_or_raw(
            row,
            "text"@,
        )->0,
        display_or_raw(row, "text"@) is None ==> choice_of(row).label == choice_of(row).value,
{
}

/// The choices of a variable are those of the rows that name it as their question.
pub proof fn choices_belong_to_their_question(rows: Seq<Row>, id: Seq<char>, i: int)
    ensures
        forall|row: Row| #[trigger]
            rows.filter(is_choice_for(id)).contains(row) <==> rows.contains(row)
                && raw_or_display(row@, "question"@) == Some(id),
        choices_for(rows, id).len() == rows.filter(is_choice_for(id)).len(),
        0 <= i < choices_for(rows, id).len() ==> choices_for(rows, id)[i] == choice_of(
            rows.filter(is_choice_for(id))[i]@,
        ),
{
    lemma_filter_keeps(rows, is_choice_for(id));
}

/// A variable holds what its row says, each of its parts from its own field: its label is
/// its question, else its name, and its name is its id where it has none.
pub proof fn variables_hold_what_their_row_says(
    v: CatalogVariable,
    row: RowView,
    choice_rows: Seq<Row>,
)
    requires
        is_variable_of(v, row, choice_rows),
    ensures
        v.sys_id@ == row.sys_id,
        raw_or_display(row, "name"@) is Some ==> v.name@ == raw_or_display(row, "name"@)->0,
        raw_or_display(row, "name"@) is None ==> v.name@ == row.sys_id,
        ({
            let question = display_or_raw(row, "question_text"@);
            &&& question is Some && !is_blank(question->0) ==> v.label@ == question->0
            &&& question is None || is_blank(question->0) ==> v.label@ == v.name@
        }),
        display_or_raw(row, "type"@) is Some ==> v.variable_type@ == display_or_raw(
            row,
            "type"@,
        )->0,
        v.mandatory <==> field_truth(row, "mandatory"@) == Some(true),
        ({
            let d = raw_or_display(row, "default_value"@);
            &&& v.default_value is Some <==> d is Some && !is_blank(d->0)
            &&& v.default_value is Some ==> v.default_value->0@ == d->0
        }),
        ({
            let d = raw_or_display(row, "reference"@);
            &&& v.reference_table is Some <==> d is Some && !is_blank(d->0)
            &&& v.reference_table is Some ==> v.reference_table->0@ == d->0
        }),
        ({
            let a = raw_or_display(row, "lookup_table"@);
            let b = raw_or_display(row, "list_table"@);
            &&& a is Some && !is_blank(a->0) ==> v.lookup_table is Some && v.lookup_table->0@
                == a->0
            &&& a is Some && is_blank(a->0) ==> v.lookup_table is None
            &&& a is None && b is Some && !is_blank(b->0) ==> v.lookup_table is Some
                && v.lookup_table->0@ == b->0
            &&& a is None && (b is None || is_blank(b->0)) ==> v.lookup_table is None
        }),
        raw_or_display(row, "max_length"@) is Some ==> v.max_length == number_of(
            raw_or_display(row, "max_length"@)->0,
        ),
        raw_or_display(row, "max_length"@) is None ==> v.max_length is None,
        v.choices@.len() == choices_for(choice_rows, row.sys_id).len(),
{
    assert(crate::catalog_items::choice_views(v.choices@).len() == v.choices@.len());
}

/// Of the rows with one id the first is kept, and no other.
pub proof fn the_first_row_of_a_record_is_kept(rows: Seq<Row>)
    ensures
        forall|row: Row| #[trigger]
            first_records(rows).contains(row) <==> exists|i: int|
                {
                    &&& 0 <= i < rows.len()
                    &&& #[trigger] rows[i] == row
                    &&& forall|k: int| 0 <= k < i ==> (#[trigger] rows[k]).sys_id@ != row.sys_id@
                },
        forall|i: int, j: int|
            0 <= i < j < first_records(rows).len() ==> (#[trigger] first_records(rows)[i]).sys_id@
                != (#[trigger] first_records(rows)[j]).sys_id@,
    decreases rows.len(),
{
    if rows.len() > 0 {
        let front = rows.drop_last();
        let n = rows.len() - 1;
        let before = first_records(front);
        let after = first_records(rows);
        the_first_row_of_a_record_is_kept(front);
        assert(rows[n] == rows.last());
        assert forall|row: Row| #[trigger] after.contains(row) <==> exists|i: int|
            {
                &&& 0 <= i < rows.len()
                &&& #[trigger] rows[i] == row
                &&& forall|k: int| 0 <= k < i ==> (#[trigger] rows[k]).sys_id@ != row.sys_id@
            } by {
            if after.contains(row) {
                if before.contains(row) {
                    let i = choose|i: int|
                        {
                            &&& 0 <= i < front.len()
                            &&& #[trigger] front[i] == row
                            &&& forall|k: int|
                                0 <= k < i ==> (#[trigger] front[k]).sys_id@ != row.sys_id@
                        };
                    assert(rows[i] == row);
                    assert forall|k: int| 0 <= k < i implies (#[trigger] rows[k]).sys_id@
                        != row.sys_id@ by {
                        assert(front[k] == rows[k]);
                    }
                } else {
                    let at = after.index_of(row);
                    if at < before.len() {
                        assert(before[at] == row);
                    }
                    assert(rows[n] == row);
                    assert forall|k: int| 0 <= k < n implies (#[trigger] rows[k]).sys_id@
                        != row.sys_id@ by {
                        assert(front[k] == rows[k]);
                    }
                }
            }
            if exists|i: int|
                {
                    &&& 0 <= i < rows.len()
                    &&& #[trigger] rows[i] == row
                    &&& forall|k: int| 0 <= k < i ==> (#[trigger] rows[k]).sys_id@ != row.sys_id@
                } {
                let i = choose|i: int|
                    {
                        &&& 0 <= i < rows.len()
                        &&& #[trigger] rows[i] == row
                        &&& forall|k: int| 0 <= k < i ==> (#[trigger] rows[k]).sys_id@ != row.sys_id@
                    };
                if i < n {
                    assert(front[i] == row);
                    assert forall|k: int| 0 <= k < i implies (#[trigger] front[k]).sys_id@
                        != row.sys_id@ by {
                        assert(front[k] == rows[k]);
                    }
                    assert(before.contains(row));
                    let at = before.index_of(row);
                    assert(after[at] == row);
                } else {
                    if record_listed(front, row.sys_id@) {
                        let k = choose|k: int|
                            0 <= k < front.len() && (#[trigger] front[k]).sys_id@ == row.sys_id@;
                        assert(rows[k].sys_id@ == row.sys_id@);
                    }
                    assert(after[before.len() as int] == row);
                }
            }
        }
        assert forall|i: int, j: int| 0 <= i < j < after.len() implies (
        #[trigger] after[i]).sys_id@ != (#[trigger] after[j]).sys_id@ by {
            if j < before.len() {
                assert(before[i].sys_id@ != before[j].sys_id@);
            } else {
                assert(before.contains(before[i]));
                let k = choose|k: int|
                    {
                        &&& 0 <= k < front.len()
                        &&& #[trigger] front[k] == before[i]
                        &&& forall|m: int|
                            0 <= m < k ==> (#[trigger] front[m]).sys_id@ != before[i].sys_id@
                    };
                assert(front[k].sys_id@ == after[i].sys_id@);
            }
        }
    }
}

/// The sets of variables are named by the rows, in their order: a row that names none adds
/// none.
pub proof fn sets_are_named_by_their_rows(a: Seq<Row>, b: Seq<Row>, row: Row)
    ensures
        raw_or_display(row@, "variable_set"@) is Some ==> named_sets(seq![row]) == seq![
            raw_or_display(row@, "variable_set"@)->0,
        ],
        raw_or_display(row@, "variable_set"@) is None ==> named_sets(seq![row]).len() == 0,
        named_sets(a + b) == named_sets(a) + named_sets(b),
    decreases b.len(),
{
    reveal_with_fuel(named_sets, 2);
    assert(seq![row].drop_last() =~= Seq::<Row>::empty());
    if b.len() == 0 {
        assert(a + b =~= a);
        assert(named_sets(a) + named_sets(b) =~= named_sets(a));
    } else {
        sets_are_named_by_their_rows(a, b.drop_last(), row);
        assert((a + b).drop_last() =~= a + b.drop_last());
        assert((a + b).last() == b.last());
        assert(named_sets(a + b) =~= named_sets(a) + named_sets(b));
    }
}

/// The items of the cache are fresh where there is a time to live and each was read within
/// it; the cache counts as old as the item that was read first.
pub proof fn caches_are_as_old_as_their_oldest_item(
    refreshed: Seq<Moment>,
    ttl: Option<i64>,
    now: Moment,
    at: Moment,
    i: int,
)
    ensures
        ttl is None ==> !all_fresh(refreshed, ttl, now),
        all_fresh(refreshed, ttl, now) && 0 <= i < refreshed.len() ==> still_fresh(
            refreshed[i],
            ttl->0,
            now,
        ),
        is_earliest(at, refreshed) ==> refreshed.contains(at),
        is_earliest(at, refreshed) && 0 <= i < refreshed.len() ==> at.seconds * 1_000_000_000
            + at.nanos <= refreshed[i].seconds * 1_000_000_000 + refreshed[i].nanos,
        (ttl is Some && forall|k: int|
            0 <= k < refreshed.len() ==> still_fresh(#[trigger] refreshed[k], ttl->0, now))
            ==> all_fresh(refreshed, ttl, now),
{
}

/// A text that is blank counts as none, and no blank id is asked for.
pub proof fn blanks_count_as_nothing(o: Option<Seq<char>>, t: Seq<char>)
    ensures
        unless_blank(o) is Some <==> o is Some && !is_blank(o->0),
        unless_blank(o) is Some ==> unless_blank(o) == o,
        not_blank()(t) <==> trim(t).len() > 0,
{
}

/// The item of an answer is the first of its items, those of its request where it lists
/// none, or the single one where neither list holds any.
pub proof fn answers_name_their_first_item(reply: CatalogReply)
    ensures
        reply.items is Some && reply.items->0@.len() > 0 ==> reply_item(reply) == Some(
            reply.items->0@[0],
        ),
        reply.items is None && reply.request_items is Some && reply.request_items->0@.len() > 0
            ==> reply_item(reply) == Some(reply.request_items->0@[0]),
        reply.items is None && reply.request_items is None ==> reply_item(reply)
            == reply.request_item,
        reply.items is Some && reply.items->0@.len() == 0 ==> reply_item(reply)
            == reply.request_item,
        reply_item(reply) is Some ==> item_sys_id_of(reply) == given(
            text_of(reply_item(reply)->0.sys_id),
        ) && item_number_of(reply) == given(text_of(reply_item(reply)->0.number)),
        reply_item(reply) is None ==> item_sys_id_of(reply) is None && item_number_of(
            reply,
        ) is None,
{
}

/// The request of an answer is the one that it names, else the one under it, else the
/// answer itself where that is a request.
pub proof fn answers_name_their_request(reply: CatalogReply)
    ensures
        ({
            let own = given(text_of(reply.request_id));
            let nested = given(text_of(reply.nested_sys_id));
            let table = given(text_of(reply.table));
            let is_request = table is Some && record_table(table->0) == "sc_request"@;
            &&& own is Some ==> request_id_of(reply) == own
            &&& own is None && nested is Some ==> request_id_of(reply) == nested
            &&& own is None && nested is None && is_request ==> request_id_of(reply) == given(
                text_of(reply.sys_id),
            )
            &&& own is None && nested is None && !is_request ==> request_id_of(reply) is None
        }),
        ({
            let own = given(text_of(reply.request_number));
            let nested = given(text_of(reply.nested_number));
            let number = given(text_of(reply.number));
            &&& own is Some ==> request_number_of(reply) == own
            &&& own is None && nested is Some ==> request_number_of(reply) == nested
            &&& own is None && nested is None && number is Some && has_prefix(
                upper(number->0),
                "REQ"@,
            ) ==> request_number_of(reply) == number
            &&& own is None && nested is None && !(number is Some && has_prefix(
                upper(number->0),
                "REQ"@,
            )) ==> request_number_of(reply) is None
        }),
{
}

/// The result of an order is its item where that has an id; else what the answer is, else
/// what it stands under. It has a page in the browser where its table and id are known.
pub proof fn orders_result_in_their_item(
    item_sys_id: Seq<char>,
    reply: CatalogReply,
    base_url: Seq<char>,
    portal: Seq<char>,
)
    ensures
        ({
            let v = submit_view(item_sys_id, reply, base_url, portal);
            let item = item_sys_id_of(reply);
            let own = given_table(text_of(reply.table));
            &&& v.item_sys_id == item_sys_id
            &&& item is Some ==> v.table == Some("sc_req_item"@) && v.sys_id == item
            &&& item is None && own is Some ==> v.table == own
            &&& item is None && own is None ==> v.table == given_table(text_of(reply.nested_table))
            &&& item is None && given(text_of(reply.sys_id)) is Some ==> v.sys_id == given(
                text_of(reply.sys_id),
            )
            &&& item is None && given(text_of(reply.sys_id)) is None ==> v.sys_id == request_id_of(
                reply,
            )
            &&& item_number_of(reply) is Some ==> v.number == item_number_of(reply)
            &&& item_number_of(reply) is None && given(text_of(reply.number)) is Some ==> v.number
                == given(text_of(reply.number))
            &&& item_number_of(reply) is None && given(text_of(reply.number)) is None ==> v.number
                == request_number_of(reply)
            &&& v.request_sys_id == request_id_of(reply)
            &&& v.request_number == request_number_of(reply)
            &&& v.request_item_sys_id == item
            &&& v.request_item_number == item_number_of(reply)
            &&& v.request_sys_id is Some ==> v.request_table == Some("sc_request"@)
            &&& v.request_sys_id is None ==> v.request_table is None
            &&& v.browser_url is Some <==> v.table is Some && v.sys_id is Some
            &&& v.browser_url is Some ==> v.browser_url->0 == ticket_url(
                base_url,
                portal,
                v.table->0,
                v.sys_id->0,
            )
        }),
{
}

/// The page of a ticket stands under the portal, the provider's own where none is set, and
/// names table and id.
pub proof fn tickets_have_a_page(
    base_url: Seq<char>,
    portal: Seq<char>,
    table: Seq<char>,
    sys_id: Seq<char>,
)
    ensures
        ({
            let rest = "?id=ticket&table="@ + table + "&sys_id="@ + sys_id + "&view=sp"@;
            &&& trim(portal).len() == 0 ==> ticket_url(base_url, portal, table, sys_id)
                == without_end_slashes(base_url) + "/"@ + "sp"@ + rest
            &&& trim(portal).len() > 0 ==> ticket_url(base_url, portal, table, sys_id)
                == without_end_slashes(base_url) + "/"@ + trim(portal) + rest
        }),
{
    let rest = "?id=ticket&table="@ + table + "&sys_id="@ + sys_id + "&view=sp"@;
    let p = if trim(portal).len() == 0 {
        "sp"@
    } else {
        trim(portal)
    };
    assert(ticket_url(base_url, portal, table, sys_id) =~= without_end_slashes(base_url) + "/"@ + p
        + rest);
}

/// After an order the record is read again where it is an item or a request, by its table
/// and id.
pub proof fn items_and_requests_are_read_again(v: SubmitView)
    ensures
        reread_of(v) is Some <==> v.table is Some && v.sys_id is Some && (record_table(v.table->0)
            == "sc_req_item"@ || record_table(v.table->0) == "sc_request"@),
        reread_of(v) is Some ==> {
            let (table, sys_id) = reread_of(v)->0;
            table == record_table(v.table->0) && sys_id == v.sys_id->0
        },
{
}

/// The week of a sheet begins on the day that its text begins with: the raw text, else what
/// is shown.
pub proof fn weeks_begin_where_their_text_says(row: RowView, text: Seq<char>)
    ensures
        row.raw("week_starts_on"@) is Some ==> week_text(row) == row.raw("week_starts_on"@),
        row.raw("week_starts_on"@) is None ==> week_text(row) == row.shown("week_starts_on"@),
        week_text(row) is Some ==> week_start(row) == leading_day(week_text(row)->0),
        week_text(row) is None ==> week_start(row) is None,
        trim(text).len() < 10 ==> leading_day(text) is None,
        trim(text).len() >= 10 ==> leading_day(text) == date_day(trim(text).subrange(0, 10)),
{
}

/// A week has seven days, its first among them.
pub proof fn weeks_have_seven_days(start: i32, day: i32)
    ensures
        in_week(Some(start), day) <==> 0 <= day - start <= 6,
        !in_week(None, day),
        WeekSelector::Current.wanted_day(day) == day,
{
}

/// The week that is meant is that of the day that is named, under its own text.
pub proof fn named_days_are_meant(week: WeekSelector, today: i32)
    ensures
        week is Date ==> week.wanted_day(today) == week->day && week.label_text() == week->label@,
        week is Current ==> week.wanted_day(today) == today && week.label_text()
            == "current week"@,
{
}

/// The cards of a user are those that name the user.
pub proof fn cards_belong_to_their_user(cards: Seq<TimeCard>, user: Seq<char>, card: TimeCard)
    ensures
        cards.filter(owned_by(user)).contains(card) <==> cards.contains(card)
            && card.user_sys_id@ == user,
{
    lemma_filter_keeps(cards, owned_by(user));
}

/// Whose card it is comes first: the refusal says to whom it belongs, else in which state
/// its sheet is.
pub proof fn refusals_say_why(card: TimeCard, actor: Seq<char>)
    ensures
        card.user_sys_id@ != actor ==> write_refusal(card, actor) == Some(
            "time card "@ + card.sys_id@ + " belongs to user "@ + card.user_sys_id@
                + ", not the authenticated user"@,
        ),
        card.user_sys_id@ == actor && !card.editable ==> write_refusal(card, actor) == Some(
            "time card sheet is "@ + card.state@ + "; recall it in the portal to edit"@,
        ),
        card.user_sys_id@ == actor && card.editable ==> write_refusal(card, actor) is None,
{
}

/// What is read of a sheet and of a card.
pub proof fn cards_are_read_with_their_days()
    ensures
        TIME_SHEET_FIELDS@.len() == 7,
        TIME_SHEET_FIELDS@[0]@ == "sys_id"@,
        TIME_SHEET_FIELDS@[1]@ == "user"@,
        TIME_SHEET_FIELDS@[2]@ == "user.user_name"@,
        TIME_SHEET_FIELDS@[3]@ == "user.email"@,
        TIME_SHEET_FIELDS@[4]@ == "user.name"@,
        TIME_SHEET_FIELDS@[5]@ == "week_starts_on"@,
        TIME_SHEET_FIELDS@[6]@ == "state"@,
        TIME_CARD_FIELDS@.len() == 23,
        TIME_CARD_FIELDS@[0]@ == "sys_id"@,
        TIME_CARD_FIELDS@[1]@ == "time_sheet"@,
        TIME_CARD_FIELDS@[2]@ == "week_starts_on"@,
        TIME_CARD_FIELDS@[3]@ == "user"@,
        TIME_CARD_FIELDS@[4]@ == "user.user_name"@,
        TIME_CARD_FIELDS@[5]@ == "user.email"@,
        TIME_CARD_FIELDS@[6]@ == "user.name"@,
        TIME_CARD_FIELDS@[7]@ == "task"@,
        TIME_CARD_FIELDS@[8]@ == "task.number"@,
        TIME_CARD_FIELDS@[9]@ == "task.sys_class_name"@,
        TIME_CARD_FIELDS@[10]@ == "category"@,
        TIME_CARD_FIELDS@[11]@ == "project_time_category"@,
        TIME_CARD_FIELDS@[12]@ == "sunday"@,
        TIME_CARD_FIELDS@[13]@ == "monday"@,
        TIME_CARD_FIELDS@[14]@ == "tuesday"@,
        TIME_CARD_FIELDS@[15]@ == "wednesday"@,
        TIME_CARD_FIELDS@[16]@ == "thursday"@,
        TIME_CARD_FIELDS@[17]@ == "friday"@,
        TIME_CARD_FIELDS@[18]@ == "saturday"@,
        TIME_CARD_FIELDS@[19]@ == "total"@,
        TIME_CARD_FIELDS@[20]@ == "state"@,
        TIME_CARD_FIELDS@[21]@ == "sys_updated_on"@,
        TIME_CARD_FIELDS@[22]@ == "sys_mod_count"@,
{
}

} // verus!
