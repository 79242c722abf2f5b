//! Laws of the lookups by number and by name: what is taken for a number or a name, which
//! tables are asked, and what their answers come to.
use vstd::prelude::*;

use crate::catalog::{catalog_failure, last_name, new_names};
use crate::listing::lemma_filter_keeps;
use crate::query::{DisplayMode, SortKeyView};
use crate::record_error::{class_of, RecordResolveError, ResolveErrorView};
use crate::record_name_resolver::{
    candidates_come_once, name_opened, name_parked, name_refusal, seen_after, unseen, NameMatchView, NameMatches,
    NameSearch, NameSearchView, RecordNameMatch, FIRST_TABLES,
};
use crate::record_number::{
    is_record_number, number_of, number_started, without_digits, NumberLookup, NumberLookupView,
};
use crate::record_types::{is_literal, TypeTables};
use crate::row::{Failure, PageView, RowView};
use crate::selection::{group_selection, selects, Held};
use crate::session::{live_entry, placed, tokens, Session, Sessions};
use crate::session_laws::{kept_states_are_found, sessions_are_found_by_their_token};
use crate::text::{is_digit, is_identifier, is_word, lower, names_of, text_less, texts, trim, upper};

verus! {

/// A record number has at most 80 characters, all of them letters, digits or underscores,
/// the last one a digit.
pub proof fn numbers_end_in_a_digit(s: Seq<char>)
    ensures
        is_record_number(s) <==> {
            &&& 0 < s.len() <= 80
            &&& '0' <= s[s.len() - 1] <= '9'
            &&& forall|i: int| 0 <= i < s.len() ==> is_word(#[trigger] s[i])
        },
{
    let p = |c: char| is_word(c);
    if is_record_number(s) {
        assert forall|i: int| 0 <= i < s.len() implies is_word(#[trigger] s[i]) by {
            assert(p(s[i]));
        }
    }
}

/// A text without the digits at its end does not end in a digit, and what was taken away
/// are digits.
pub proof fn prefixes_lose_their_digits(s: Seq<char>)
    ensures
        ({
            let p = without_digits(s);
            &&& p.len() <= s.len()
            &&& p == s.subrange(0, p.len() as int)
            &&& p.len() > 0 ==> !('0' <= p[p.len() - 1] <= '9')
            &&& forall|i: int| p.len() <= i < s.len() ==> '0' <= #[trigger] s[i] <= '9'
        }),
    decreases s.len(),
{
    let p = without_digits(s);
    if s.len() > 0 && is_digit(s.last()) {
        let t = s.drop_last();
        prefixes_lose_their_digits(t);
        assert(p == t.subrange(0, p.len() as int));
        assert(p =~= s.subrange(0, p.len() as int));
        assert forall|i: int| p.len() <= i < s.len() implies '0' <= #[trigger] s[i] <= '9' by {
            if i < t.len() {
                assert(t[i] == s[i]);
            }
        }
    } else {
        assert(p =~= s.subrange(0, p.len() as int));
    }
}

/// A number is read in capitals, without the blanks around it. It is accepted where that
/// is a record number with something before its digits.
pub proof fn accepted_numbers_have_a_prefix(value: Seq<char>)
    ensures
        ({
            let n = upper(trim(value));
            &&& number_of(value) is Ok ==> number_of(value)->Ok_0 == n
            &&& number_of(value) is Ok <==> is_literal(trim(value), 160) && is_record_number(n)
                && !('0' <= n[0] <= '9' && without_digits(n).len() == 0)
        }),
        number_of(value) is Err ==> number_of(value)->Err_0 is InvalidParams,
{
    prefixes_lose_their_digits(upper(trim(value)));
}

/// A lookup begins with the tables that the prefix led to; where it led nowhere, or where
/// the metadata could not be read, it begins with all tasks. Metadata that contradicts
/// itself, and a request that is at fault, end it.
pub proof fn lookups_begin_where_the_prefix_leads(
    number: Seq<char>,
    mapping: Result<TypeTables, RecordResolveError>,
    r: Result<NumberLookup, RecordResolveError>,
)
    requires
        number_started(number, mapping, r),
    ensures
        r is Err <==> mapping is Err && !(mapping->Err_0 is Unavailable),
        r is Err ==> r->Err_0 == mapping->Err_0,
        r is Ok ==> ({
            let s = r->Ok_0@;
            let led = mapping is Ok && mapping->Ok_0.tables@.len() > 0;
            &&& led ==> s.tables == texts(mapping->Ok_0.tables@)
            &&& !led ==> s.tables == seq!["task"@]
            &&& s.number == number
            &&& s.next == 0
            &&& s.found is None
            &&& s.class_read is None
            &&& s.mapping_error is Some <==> mapping is Err
            &&& mapping is Err ==> s.mapping_error == Some(mapping->Err_0@)
        }),
{
}

/// A table is asked for the number; two rows are enough to see that it is not the only one.
pub proof fn tables_are_asked_for_the_number(s: NumberLookupView, held: Held)
    requires
        0 <= s.next < s.tables.len(),
    ensures
        ({
            let q = s.query();
            &&& q.table == s.tables[s.next]
            &&& selects(q, held) <==> held("number"@) == s.number
            &&& q.limit == Some(2u32)
            &&& q.fields.len() == 0
            &&& q.display == DisplayMode::Both
            &&& q.without_count
        }),
{
    broadcast use group_selection;

}

/// A row joins what was found where it is the same record as before; the lookup then goes
/// on with the next table.
pub proof fn rows_join_the_same_record(s: NumberLookupView, row: RowView)
    ensures
        s.accept(row) is Ok <==> (s.found is Some ==> s.found->0.sys_id == row.sys_id),
        s.accept(row) is Ok ==> ({
            let next = s.accept(row)->Ok_0;
            &&& next.found == Some(row)
            &&& next.next == s.next + 1
            &&& next.class_read is None
            &&& next.tables == s.tables
            &&& next.number == s.number
            &&& next.mapping_error == s.mapping_error
        }),
        s.accept(row) is Err ==> s.accept(row)->Err_0 == ResolveErrorView::Integrity(
            "record number matches multiple types"@,
        ),
{
}

/// What a table answers for a number: nothing, and the next table is asked; one row that
/// bears the number, and it joins what was found, or its class is read where that is
/// another table. More rows, a part of a page, or another number end the lookup.
pub proof fn tables_answer_for_a_number(s: NumberLookupView, reply: Result<PageView, Failure>)
    ensures
        reply is Err ==> s.after_page(reply) == Err::<NumberLookupView, ResolveErrorView>(
            ResolveErrorView::Unavailable("number lookup table is unreadable"@),
        ),
        reply is Ok && (reply->Ok_0.partial || reply->Ok_0.rows.len() > 1) ==> s.after_page(reply)
            == Err::<NumberLookupView, ResolveErrorView>(
            ResolveErrorView::Integrity(
                "record number is ambiguous or provider returned a partial page"@,
            ),
        ),
        reply is Ok && !reply->Ok_0.partial && reply->Ok_0.rows.len() == 0 ==> {
            &&& s.after_page(reply) is Ok
            &&& s.after_page(reply)->Ok_0.next == s.next + 1
            &&& s.after_page(reply)->Ok_0.found == s.found
        },
        reply is Ok && !reply->Ok_0.partial && reply->Ok_0.rows.len() == 1 ==> ({
            let row = reply->Ok_0.rows[0];
            let class = class_of(row);
            &&& row.raw("number"@) != Some(s.number) ==> s.after_page(reply) == Err::<
                NumberLookupView,
                ResolveErrorView,
            >(ResolveErrorView::Integrity("number lookup returned an unrelated record"@))
            &&& row.raw("number"@) == Some(s.number) && class is Err ==> s.after_page(reply)
                == Err::<NumberLookupView, ResolveErrorView>(class->Err_0)
            &&& row.raw("number"@) == Some(s.number) && class is Ok && class->Ok_0
                == s.tables[s.next] ==> s.after_page(reply) == s.accept(row)
            &&& row.raw("number"@) == Some(s.number) && class is Ok && class->Ok_0
                != s.tables[s.next] ==> {
                &&& s.after_page(reply) is Ok
                &&& s.after_page(reply)->Ok_0.next == s.next
                &&& s.after_page(reply)->Ok_0.found == s.found
                &&& s.after_page(reply)->Ok_0.class_read is Some
                &&& s.after_page(reply)->Ok_0.class_read->0.table == class->Ok_0
                &&& s.after_page(reply)->Ok_0.class_read->0.sys_id == row.sys_id
            }
        }),
{
}

/// A row that was read in its class is the record where it is the same one, still bears the
/// number and is still of that class.
pub proof fn classes_confirm_the_number(s: NumberLookupView, reply: Result<RowView, Failure>)
    requires
        s.class_read is Some,
    ensures
        reply is Err ==> s.after_class(reply) == Err::<NumberLookupView, ResolveErrorView>(
            ResolveErrorView::Unavailable("number's actual class is unreadable"@),
        ),
        reply is Ok ==> ({
            let row = reply->Ok_0;
            let same = row.sys_id == s.class_read->0.sys_id && row.raw("number"@) == Some(s.number);
            let changed = ResolveErrorView::Integrity("record changed during number resolution"@);
            &&& same && class_of(row) is Ok && class_of(row)->Ok_0 == s.class_read->0.table
                ==> s.after_class(reply) == s.accept(row)
            &&& same && class_of(row) is Ok && class_of(row)->Ok_0 != s.class_read->0.table
                ==> s.after_class(reply) == Err::<NumberLookupView, ResolveErrorView>(changed)
            &&& same && class_of(row) is Err ==> s.after_class(reply) == Err::<
                NumberLookupView,
                ResolveErrorView,
            >(class_of(row)->Err_0)
            &&& !same ==> s.after_class(reply) == Err::<NumberLookupView, ResolveErrorView>(
                changed,
            )
        }),
{
}

/// A name is up to 200 bytes of literal text, and the table, where one is given, is a table
/// name; blanks around them do not count.
pub proof fn names_are_literal_texts(name: Seq<char>, table: Option<Seq<char>>)
    ensures
        name_refusal(name, table) is None <==> is_literal(trim(name), 200) && (table is Some
            ==> is_identifier(lower(trim(table->0)))),
        !is_literal(trim(name), 200) ==> name_refusal(name, table) == Some(
            ResolveErrorView::InvalidParams(
                "name must be 1-200 bytes of literal text without encoded-query syntax"@,
            ),
        ),
        is_literal(trim(name), 200) && name_refusal(name, table) is Some ==> name_refusal(
            name,
            table,
        )->0 == ResolveErrorView::InvalidParams("table must be a ServiceNow table identifier"@),
{
}

/// A search by name begins with the table that was given and searches no other. Without one
/// it begins with sprints, releases, groups, users, tasks, configuration items and articles,
/// and reads the catalog afterwards.
pub proof fn name_searches_begin_with_the_known_tables(name: Seq<char>, table: Option<Seq<char>>)
    ensures
        ({
            let s = NameSearchView::fresh(name, table);
            &&& s.name == name
            &&& s.table == table
            &&& table is Some ==> s.pending == seq![table->0] && s.catalog_complete
            &&& table is None ==> !s.catalog_complete && s.pending == seq![
                "rm_sprint"@,
                "rm_release_scrum"@,
                "sys_user_group"@,
                "sys_user"@,
                "task"@,
                "cmdb_ci"@,
                "kb_knowledge"@,
            ]
            &&& s.catalog_after.len() == 0
            &&& s.row_after is None
            &&& s.seen.len() == 0
            &&& s.scanned == 0
            &&& s.unreadable == 0
        }),
{
    reveal_strlit("");
    let s = NameSearchView::fresh(name, table);
    if table is None {
        assert(s.pending.len() == 7);
        assert(s.pending =~= seq![
            "rm_sprint"@,
            "rm_release_scrum"@,
            "sys_user_group"@,
            "sys_user"@,
            "task"@,
            "cmdb_ci"@,
            "kb_knowledge"@,
        ]);
    }
}

/// The catalog is read 32 names at a time in ascending order, each page behind the last
/// name of the one before.
pub proof fn name_searches_read_the_catalog(s: NameSearchView, held: Held)
    ensures
        ({
            let q = s.catalog_query();
            &&& q.table == "sys_db_object"@
            &&& selects(q, held) <==> (s.catalog_after.len() > 0 ==> text_less(
                s.catalog_after,
                held("name"@),
            ))
            &&& q.fields == seq!["name"@]
            &&& q.limit == Some(32u32)
            &&& q.order == seq![SortKeyView { field: "name"@, descending: false }]
            &&& q.without_count
        }),
        s.exhausted() <==> s.pending.len() == 0 && s.catalog_complete,
{
    broadcast use group_selection;

    let q = s.catalog_query();
    assert(q.fields =~= seq!["name"@]);
    assert(q.order =~= seq![SortKeyView { field: "name"@, descending: false }]);
}

/// A page of the catalog takes a search by name further, or ends it with an error.
pub proof fn name_searches_go_on_with_the_catalog(
    s: NameSearchView,
    reply: Result<PageView, Failure>,
)
    ensures
        reply is Err ==> s.after_catalog(reply) == Err::<NameSearchView, ResolveErrorView>(
            ResolveErrorView::Unavailable(
                if reply->Err_0 == Failure::TimedOut {
                    "table catalog discovery timed out"@
                } else {
                    "table catalog is unreadable; name discovery cannot finish"@
                },
            ),
        ),
        reply is Ok && reply->Ok_0.partial ==> s.after_catalog(reply) == Err::<
            NameSearchView,
            ResolveErrorView,
        >(ResolveErrorView::Unavailable("table catalog returned a partial page"@)),
        reply is Ok && !reply->Ok_0.partial ==> (s.after_catalog(reply) is Ok <==> catalog_failure(
            s.catalog_after,
            reply->Ok_0.rows,
            false,
        ) is None),
        s.after_catalog(reply) is Ok ==> ({
            let next = s.after_catalog(reply)->Ok_0;
            let rows = reply->Ok_0.rows;
            &&& next.name == s.name
            &&& next.table == s.table
            &&& next.row_after == s.row_after
            &&& next.seen == s.seen
            &&& next.scanned == s.scanned
            &&& next.unreadable == s.unreadable
            &&& next.catalog_after == last_name(s.catalog_after, rows)
            &&& next.catalog_complete <==> rows.len() < 32
            &&& next.pending.subrange(0, s.pending.len() as int) == s.pending
            &&& next.pending.subrange(s.pending.len() as int, next.pending.len() as int)
                == new_names(rows, names_of(FIRST_TABLES@))
        }),
{
    if s.after_catalog(reply) is Ok {
        let next = s.after_catalog(reply)->Ok_0;
        assert(next.pending.subrange(0, s.pending.len() as int) =~= s.pending);
        assert(next.pending.subrange(s.pending.len() as int, next.pending.len() as int)
            =~= new_names(reply->Ok_0.rows, names_of(FIRST_TABLES@)));
    }
}

/// A page of a table leaves that table behind once there is no row to go on behind. The
/// table counts as searched with its first page, and as unreadable where its metadata is
/// incomplete.
pub proof fn tables_are_left_at_their_end(
    s: NameSearchView,
    found: Seq<NameMatchView>,
    next: Option<Seq<char>>,
    complete: bool,
)
    requires
        s.pending.len() > 0,
        s.scanned < usize::MAX,
        s.unreadable < usize::MAX,
    ensures
        ({
            let t = s.after_page(found, next, complete);
            &&& t.row_after == next
            &&& next is None ==> seq![s.pending[0]] + t.pending == s.pending
            &&& next is Some ==> t.pending == s.pending
            &&& s.row_after is None ==> t.scanned == s.scanned + 1
            &&& s.row_after is Some ==> t.scanned == s.scanned
            &&& s.row_after is None && !complete ==> t.unreadable == s.unreadable + 1
            &&& s.row_after is Some || complete ==> t.unreadable == s.unreadable
            &&& t.name == s.name
            &&& t.table == s.table
            &&& t.catalog_after == s.catalog_after
            &&& t.catalog_complete == s.catalog_complete
        }),
        ({
            let t = s.after_failure();
            &&& t.row_after is None
            &&& seq![s.pending[0]] + t.pending == s.pending
            &&& t.scanned == s.scanned + 1
            &&& t.unreadable == s.unreadable + 1
            &&& t.seen == s.seen
            &&& t.name == s.name
            &&& t.table == s.table
            &&& t.catalog_after == s.catalog_after
            &&& t.catalog_complete == s.catalog_complete
        }),
{
    if next is None {
        assert(seq![s.pending[0]] + s.after_page(found, next, complete).pending =~= s.pending);
    }
    assert(seq![s.pending[0]] + s.after_failure().pending =~= s.pending);
}

/// A record is seen once it was found, and not before; a record that is found for the first
/// time comes back.
pub proof fn new_candidates_come_back(
    seen: Seq<Seq<char>>,
    found: Seq<NameMatchView>,
    id: Seq<char>,
)
    ensures
        seen_after(seen, found).contains(id) <==> seen.contains(id) || exists|i: int|
            0 <= i < found.len() && (#[trigger] found[i]).sys_id == id,
        (exists|i: int|
            0 <= i < unseen(seen, found).len() && (#[trigger] unseen(seen, found)[i]).sys_id == id)
            <==> !seen.contains(id) && exists|i: int|
            0 <= i < found.len() && (#[trigger] found[i]).sys_id == id,
        forall|i: int|
            0 <= i < unseen(seen, found).len() ==> found.contains(#[trigger] unseen(seen, found)[i]),
    decreases found.len(),
{
    if found.len() > 0 {
        let less = found.drop_last();
        let last = found.last();
        new_candidates_come_back(seen, less, id);
        new_candidates_come_back(seen, less, last.sys_id);
        candidates_come_once(seen, found);
        let before = seen_after(seen, less);
        let old_new = unseen(seen, less);
        let all_new = unseen(seen, found);
        assert(found[found.len() - 1] == last);
        assert forall|x: Seq<char>| #[trigger] before.push(last.sys_id).contains(x) <==> (
        before.contains(x) || x == last.sys_id) by {
            if before.contains(x) {
                let i = before.index_of(x);
                assert(before.push(last.sys_id)[i] == x);
            }
            assert(before.push(last.sys_id)[before.len() as int] == last.sys_id);
        }
        if exists|i: int| 0 <= i < less.len() && (#[trigger] less[i]).sys_id == id {
            let i = choose|i: int| 0 <= i < less.len() && (#[trigger] less[i]).sys_id == id;
            assert(found[i].sys_id == id);
        }
        if exists|i: int| 0 <= i < found.len() && (#[trigger] found[i]).sys_id == id {
            let i = choose|i: int| 0 <= i < found.len() && (#[trigger] found[i]).sys_id == id;
            if i < less.len() {
                assert(less[i].sys_id == id);
            }
        }
        if exists|i: int| 0 <= i < old_new.len() && (#[trigger] old_new[i]).sys_id == id {
            let i = choose|i: int| 0 <= i < old_new.len() && (#[trigger] old_new[i]).sys_id == id;
            assert(all_new[i].sys_id == id);
        }
        if exists|i: int| 0 <= i < all_new.len() && (#[trigger] all_new[i]).sys_id == id {
            let i = choose|i: int| 0 <= i < all_new.len() && (#[trigger] all_new[i]).sys_id == id;
            if i < old_new.len() {
                assert(old_new[i].sys_id == id);
            }
        }
        if !before.contains(last.sys_id) {
            assert(all_new[old_new.len() as int] == last);
        }
        assert forall|i: int| 0 <= i < all_new.len() implies found.contains(
            #[trigger] all_new[i],
        ) by {
            if i < old_new.len() {
                assert(all_new[i] == old_new[i]);
                assert(less.contains(old_new[i]));
                let k = less.index_of(old_new[i]);
                assert(found[k] == all_new[i]);
            }
        }
    }
}

/// A search by name is taken up under its cursor where the session was used within the last
/// five minutes and is for the same name and table; without a cursor a new one begins while
/// fewer than 32 are live.
pub proof fn name_searches_are_taken_up_by_cursor(
    before: Sessions<NameSearch>,
    after: Sessions<NameSearch>,
    cursor: Option<Seq<char>>,
    name: Seq<char>,
    table: Option<Seq<char>>,
    now: u64,
    r: Result<NameSearch, RecordResolveError>,
    e: Session<NameSearch>,
)
    requires
        after.well_formed(),
        name_opened(before, after, cursor, name, table, now, r),
    ensures
        cursor is Some && before.entries@.contains(e) && e.token@ == cursor->0 && now < e.touched
            + 300_000 ==> {
            &&& r is Ok <==> e.state@.name == name && e.state@.table == table
            &&& r is Ok ==> r->Ok_0@ == e.state@
        },
        cursor is Some && r is Err ==> r->Err_0@ == ResolveErrorView::InvalidParams(
            "invalid, expired, or cross-selector name cursor"@,
        ),
        cursor is Some && r is Ok ==> exists|d: Session<NameSearch>|
            {
                &&& #[trigger] before.entries@.contains(d)
                &&& d.token@ == cursor->0
                &&& now < d.touched + 300_000
                &&& d.state@.name == name
                &&& d.state@.table == table
                &&& r->Ok_0@ == d.state@
            },
        cursor is None ==> (r is Ok <==> after.entries@.len() < 32),
        cursor is None && r is Ok ==> r->Ok_0@ == NameSearchView::fresh(name, table),
        cursor is None && r is Err ==> r->Err_0@ == ResolveErrorView::Unavailable(
            "name discovery is at capacity; retry after active searches expire"@,
        ),
{
    lemma_filter_keeps(before.entries@, live_entry(now));
    let live = after.entries@;
    if cursor is Some {
        if live.contains(e) && e.token@ == cursor->0 {
            let i = live.index_of(e);
            assert(live[i] == e);
            sessions_are_found_by_their_token(after, cursor->0, i);
        }
        if r is Ok {
            let i = after.position(cursor->0)->0;
            let all = tokens(live);
            assert(0 <= i < all.len() && all[i] == cursor->0);
            assert(live[i].token@ == cursor->0);
            assert(live.contains(live[i]));
            assert(before.entries@.contains(live[i]));
        }
    }
}

/// A call by name answers with what it found and how far it came. It is complete where
/// every table was searched and all could be read; where tables are left, the rest of the
/// search is kept under the cursor that comes with the answer, while fewer than 128 are
/// live.
pub proof fn calls_by_name_say_how_far_they_came(
    before: Sessions<NameSearch>,
    after: Sessions<NameSearch>,
    state: NameSearch,
    records: Vec<RecordNameMatch>,
    now: u64,
    token: String,
    r: Result<NameMatches, RecordResolveError>,
)
    requires
        name_parked(before, after, state, records, now, token, r),
    ensures
        ({
            let over = state@.pending.len() == 0 && state@.catalog_complete;
            let live = before.entries@.filter(live_entry(now));
            &&& r is Ok <==> over || live.len() < 128
            &&& r is Err ==> r->Err_0@ == ResolveErrorView::Unavailable(
                "name cursor storage is at capacity; retry after expiry"@,
            )
            &&& r is Ok ==> {
                &&& r->Ok_0.name == state.name
                &&& r->Ok_0.records == records
                &&& r->Ok_0.complete <==> over && state.unreadable == 0
                &&& r->Ok_0.cursor is None <==> over
                &&& r->Ok_0.match_count == state.seen@.len()
                &&& r->Ok_0.scanned_tables == state.scanned
                &&& r->Ok_0.unreadable_tables == state.unreadable
            }
            &&& r is Ok && !over ==> {
                &&& r->Ok_0.cursor == Some(token)
                &&& exists|d: Session<NameSearch>|
                    {
                        &&& #[trigger] after.entries@.contains(d)
                        &&& d.token == token
                        &&& d.state == state
                        &&& d.touched == now
                    }
            }
            &&& over ==> after == before
        }),
{
    let live = before.entries@.filter(live_entry(now));
    if r is Ok && !state@.exhausted() {
        let kept = Session { token, touched: now, state };
        let room = choose|room: Sessions<NameSearch>|
            room.well_formed() && room.entries@ == live && after.entries@ == #[trigger] placed(
                room,
                kept,
            );
        kept_states_are_found(room, kept, kept);
        assert(after.entries@.contains(kept));
    }
}

} // verus!
