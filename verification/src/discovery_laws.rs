//! Laws of identifier discovery: which requests are accepted, which tables are asked and
//! in what order the catalog is read, and what the answers settle.
use vstd::prelude::*;

use crate::catalog::{catalog_failure, catalog_names, last_name, new_names, not_listed};
use crate::id_search::{goes_on, judged, IdSearch};
use crate::listing::lemma_filter_keeps;
use crate::query::SortKeyView;
use crate::record_error::{class_of, identity_failure, RecordResolveError, ResolveErrorView};
use crate::record_resolver::{
    capped_sum, found_rows, is_probe_of, match_failure, number_scope_failure, parked, probe_count,
    reread_failure, scoped_failure, search_opened, Probe, RecordResolveInput, SearchEnd,
    SearchState, SearchView, PRIORITY_TABLES,
};
use crate::row::{Failure, PageView, Row, RowView};
use crate::selection::{group_selection, selects, Held};
use crate::session::{live_entry, placed, tokens, Session, Sessions};
use crate::session_laws::{
    ended_sessions_are_gone, kept_states_are_found, sessions_are_found_by_their_token,
};
use crate::text::{is_identifier, lower, names_of, text_less};
use crate::text_laws::case_does_not_count;

verus! {

/// The class of a row is what its `sys_class_name` says. Where that is empty or missing, it
/// is the table that the row was read from; but a task, a configuration item or a piece of
/// metadata has then no class that can be told. A class is a table name.
pub proof fn classes_are_told_by_the_row(row: RowView)
    ensures
        ({
            let named = row.raw("sys_class_name"@);
            let parent = row.table == "task"@ || row.table == "cmdb_ci"@ || row.table
                == "sys_metadata"@;
            let class = if named is Some && named->0.len() > 0 {
                named->0
            } else {
                row.table
            };
            let silent = named is None || named->0.len() == 0;
            &&& class_of(row) is Ok ==> class_of(row)->Ok_0 == class
            &&& class_of(row) is Ok <==> {
                &&& is_identifier(class)
                &&& !(silent && parent)
                &&& !(named is None && row.has("sys_class_name"@))
            }
            &&& silent && parent ==> class_of(row)->Err_0 == ResolveErrorView::Unavailable(
                "parent record is readable but its actual object class is hidden; complete type resolution is unavailable"@,
            )
            &&& class_of(row) is Err && !(silent && parent) ==> class_of(row)->Err_0 is Integrity
        }),
{
    reveal_strlit("");
    let named = row.raw("sys_class_name"@);
    if named is Some && named->0.len() == 0 {
        assert(named->0 =~= ""@);
    }
}

/// A row answers for an identifier only where it carries it, in whatever case.
pub proof fn rows_carry_the_identifier(row: RowView, expected: Seq<char>)
    ensures
        identity_failure(row, expected) is None <==> lower(row.sys_id) == lower(expected),
        identity_failure(row, expected) is Some ==> identity_failure(row, expected)->0
            == ResolveErrorView::Integrity("provider returned a different sys_id"@),
{
    case_does_not_count(row.sys_id, expected);
}

/// A request names a record by one of name, number and sys_id, or it names a type by one of
/// resource type and table, without a cursor. Every other request is refused.
pub proof fn requests_name_one_thing(input: RecordResolveInput)
    ensures
        ({
            let by_name = input.name is Some && input.number is None && input.sys_id is None;
            let by_number = input.name is None && input.number is Some && input.sys_id is None;
            let by_id = input.name is None && input.number is None && input.sys_id is Some;
            let none = input.name is None && input.number is None && input.sys_id is None;
            let one_type = (input.resource_type is Some) != (input.table is Some);
            let refusal = input.refusal();
            &&& refusal is None <==> by_name || by_number || by_id || (none && one_type
                && input.cursor is None)
            &&& refusal is Some ==> refusal->0 == ResolveErrorView::InvalidParams(
                if !none {
                    "provide one of name, number, or sys_id"@
                } else if input.cursor is Some || input.resource_type is Some {
                    "type discovery requires only resource_type or table"@
                } else {
                    "name, number, sys_id, or resource_type is required"@
                },
            )
            &&& input.selectors() == 1 <==> by_name || by_number || by_id
            &&& input.selectors() == 0 <==> none
        }),
{
}

/// A resource type narrows a request down, unless it says that any record will do.
pub proof fn any_record_is_no_hint(input: RecordResolveInput)
    ensures
        input.hint() is Some <==> input.resource_type is Some && input.resource_type->0@
            != "record"@,
        input.hint() is Some ==> input.hint()->0 == input.resource_type->0@,
{
}

/// A record that was found by its number in a scope is of that table.
pub proof fn numbers_stay_in_their_scope(row: RowView, scope: Option<Seq<char>>)
    ensures
        number_scope_failure(row, scope) is None <==> (scope is Some ==> row.table == scope->0),
        number_scope_failure(row, scope) is Some ==> number_scope_failure(row, scope)->0
            == ResolveErrorView::InvalidParams("number does not match the resolved type"@),
{
}

/// A scoped read succeeds with a row that carries the identifier and is of the class that
/// was asked for; a row of another class tells that the hint was wrong.
pub proof fn scoped_reads_bring_their_class(
    reply: Result<RowView, Failure>,
    sys_id: Seq<char>,
    table: Seq<char>,
)
    ensures
        scoped_failure(reply, sys_id, table) is None <==> {
            &&& reply is Ok
            &&& lower(reply->Ok_0.sys_id) == lower(sys_id)
            &&& class_of(reply->Ok_0) is Ok
            &&& class_of(reply->Ok_0)->Ok_0 == table
        },
        reply is Err ==> scoped_failure(reply, sys_id, table) == Some(
            ResolveErrorView::Unavailable("record table is unreadable or record was not found"@),
        ),
        reply is Ok && lower(reply->Ok_0.sys_id) == lower(sys_id) && class_of(reply->Ok_0) is Ok
            && class_of(reply->Ok_0)->Ok_0 != table ==> scoped_failure(reply, sys_id, table)
            == Some(
            ResolveErrorView::InvalidParams(
                "sys_id does not match the resolved type; omit the hint to discover its actual class"@,
            ),
        ),
{
    if reply is Ok {
        case_does_not_count(reply->Ok_0.sys_id, sys_id);
    }
}

/// A second reading succeeds with the same record, in the class that the first one told.
pub proof fn second_readings_agree(
    reply: Result<RowView, Failure>,
    sys_id: Seq<char>,
    class: Seq<char>,
)
    ensures
        reread_failure(reply, sys_id, class) is None <==> {
            &&& reply is Ok
            &&& lower(reply->Ok_0.sys_id) == lower(sys_id)
            &&& class_of(reply->Ok_0) is Ok
            &&& class_of(reply->Ok_0)->Ok_0 == class
        },
        reply == Err::<RowView, Failure>(Failure::TimedOut) ==> reread_failure(reply, sys_id, class)
            == Some(ResolveErrorView::Unavailable("resolved class read timed out"@)),
        reply is Err && reply->Err_0 != Failure::TimedOut ==> reread_failure(reply, sys_id, class)
            == Some(
            ResolveErrorView::Unavailable(
                "resolved class is not readable; parent data is not a complete object"@,
            ),
        ),
        reply is Ok && lower(reply->Ok_0.sys_id) == lower(sys_id) && class_of(reply->Ok_0) is Ok
            && class_of(reply->Ok_0)->Ok_0 != class ==> reread_failure(reply, sys_id, class)
            == Some(ResolveErrorView::Integrity("class changed during identifier resolution"@)),
{
    if reply is Ok {
        case_does_not_count(reply->Ok_0.sys_id, sys_id);
    }
}

/// A row counts for an identifier where it carries it and has a class.
pub proof fn matches_have_a_class(row: RowView, sys_id: Seq<char>)
    ensures
        match_failure(row, sys_id) is None <==> lower(row.sys_id) == lower(sys_id) && class_of(
            row,
        ) is Ok,
        lower(row.sys_id) != lower(sys_id) ==> match_failure(row, sys_id) == Some(
            ResolveErrorView::Integrity("provider returned a different sys_id"@),
        ),
        lower(row.sys_id) == lower(sys_id) && class_of(row) is Err ==> match_failure(row, sys_id)
            == Some(class_of(row)->Err_0),
{
    case_does_not_count(row.sys_id, sys_id);
}

/// A search for an identifier begins with tasks, configuration items, users, groups,
/// articles, metadata, resource plans and approvals; nothing has been read by then.
pub proof fn searches_begin_with_the_large_tables(sys_id: Seq<char>)
    ensures
        ({
            let s = SearchView::fresh(sys_id);
            &&& s.sys_id == sys_id
            &&& s.pending == seq![
                "task"@,
                "cmdb_ci"@,
                "sys_user"@,
                "sys_user_group"@,
                "kb_knowledge"@,
                "sys_metadata"@,
                "resource_plan"@,
                "sysapproval_approver"@,
            ]
            &&& s.after.len() == 0
            &&& !s.catalog_complete
            &&& s.scanned == 0
            &&& s.unreadable == 0
            &&& !s.exhausted()
        }),
{
    reveal_strlit("");
    let s = SearchView::fresh(sys_id);
    assert(s.pending.len() == 8);
    assert(s.pending =~= seq![
        "task"@,
        "cmdb_ci"@,
        "sys_user"@,
        "sys_user_group"@,
        "kb_knowledge"@,
        "sys_metadata"@,
        "resource_plan"@,
        "sysapproval_approver"@,
    ]);
}

/// A search is over where no table waits and the catalog has been read to its end.
pub proof fn searches_end_with_the_catalog(s: SearchView)
    ensures
        s.exhausted() <==> s.pending.len() == 0 && s.catalog_complete,
{
}

/// The catalog is read 32 names at a time in ascending order, each page behind the last
/// name of the one before.
pub proof fn the_catalog_is_read_in_order(s: SearchView, held: Held)
    ensures
        ({
            let q = s.catalog_query();
            &&& q.table == "sys_db_object"@
            &&& selects(q, held) <==> (s.after.len() > 0 ==> text_less(s.after, held("name"@)))
            &&& q.fields == seq!["sys_id"@, "name"@]
            &&& q.limit == Some(32u32)
            &&& q.order == seq![SortKeyView { field: "name"@, descending: false }]
        }),
{
    broadcast use group_selection;

    let q = s.catalog_query();
    assert(q.fields =~= seq!["sys_id"@, "name"@]);
    assert(q.order =~= seq![SortKeyView { field: "name"@, descending: false }]);
}

/// A page of the catalog is accepted where every row has a table name, the first one behind
/// the last name that was read, and each behind the one before.
pub proof fn accepted_pages_go_on(after: Seq<char>, rows: Seq<RowView>, named: bool)
    ensures
        catalog_failure(after, rows, named) is None <==> forall|i: int|
            0 <= i < rows.len() ==> {
                &&& (#[trigger] rows[i]).raw("name"@) is Some
                &&& is_identifier(rows[i].raw("name"@)->0)
                &&& text_less(
                    if i == 0 {
                        after
                    } else {
                        rows[i - 1].raw("name"@)->0
                    },
                    rows[i].raw("name"@)->0,
                )
            },
        catalog_failure(after, rows, named) is Some ==> {
            ||| catalog_failure(after, rows, named)->0 == ResolveErrorView::Integrity(
                "table catalog returned an invalid or non-progressing name"@,
            )
            ||| named && catalog_failure(after, rows, named)->0 == ResolveErrorView::Integrity(
                "table catalog omitted a table name"@,
            )
        },
        rows.len() > 0 && rows[0].raw("name"@) is None && named ==> catalog_failure(
            after,
            rows,
            named,
        ) == Some(ResolveErrorView::Integrity("table catalog omitted a table name"@)),
        rows.len() > 0 && rows[0].raw("name"@) is Some && catalog_failure(
            after,
            seq![rows[0]],
            named,
        ) is Some ==> catalog_failure(after, rows, named) == Some(
            ResolveErrorView::Integrity(
                "table catalog returned an invalid or non-progressing name"@,
            ),
        ),
    decreases rows.len(),
{
    if rows.len() > 0 {
        let rest = rows.subrange(1, rows.len() as int);
        let one = seq![rows[0]];
        assert(one.subrange(1, 1).len() == 0);
        reveal_with_fuel(catalog_failure, 2);
        if rows[0].raw("name"@) is Some {
            let n = rows[0].raw("name"@)->0;
            accepted_pages_go_on(n, rest, named);
            let fine = is_identifier(n) && text_less(after, n);
            if catalog_failure(after, rows, named) is None {
                assert forall|i: int| 0 <= i < rows.len() implies {
                    &&& (#[trigger] rows[i]).raw("name"@) is Some
                    &&& is_identifier(rows[i].raw("name"@)->0)
                    &&& text_less(
                        if i == 0 {
                            after
                        } else {
                            rows[i - 1].raw("name"@)->0
                        },
                        rows[i].raw("name"@)->0,
                    )
                } by {
                    if i > 0 {
                        assert(rest[i - 1] == rows[i]);
                        if i > 1 {
                            assert(rest[i - 2] == rows[i - 1]);
                        }
                    }
                }
            } else if fine {
                let i = choose|i: int|
                    0 <= i < rest.len() && !{
                        &&& (#[trigger] rest[i]).raw("name"@) is Some
                        &&& is_identifier(rest[i].raw("name"@)->0)
                        &&& text_less(
                            if i == 0 {
                                n
                            } else {
                                rest[i - 1].raw("name"@)->0
                            },
                            rest[i].raw("name"@)->0,
                        )
                    };
                assert(rest[i] == rows[i + 1]);
                if i > 0 {
                    assert(rest[i - 1] == rows[i]);
                }
            } else {
                assert(rows[0].raw("name"@) is Some);
            }
        } else {
            assert(rows[0].raw("name"@) is None);
        }
    }
}

/// What an accepted page adds are the names on it, but for those of the tables that were
/// asked first; the search then goes on behind its last name.
pub proof fn pages_add_their_names(
    after: Seq<char>,
    rows: Seq<RowView>,
    first: Seq<Seq<char>>,
    n: Seq<char>,
)
    ensures
        new_names(rows, first).contains(n) <==> !first.contains(n) && exists|i: int|
            0 <= i < rows.len() && (#[trigger] rows[i]).raw("name"@)->0 == n,
        rows.len() == 0 ==> last_name(after, rows) == after,
        rows.len() > 0 ==> last_name(after, rows) == rows[rows.len() - 1].raw("name"@)->0,
{
    let all = catalog_names(rows);
    lemma_filter_keeps(all, not_listed(first));
    if all.contains(n) {
        let i = all.index_of(n);
        assert(all[i] == n);
        assert(rows[i].raw("name"@)->0 == n);
    }
    if exists|i: int| 0 <= i < rows.len() && (#[trigger] rows[i]).raw("name"@)->0 == n {
        let i = choose|i: int| 0 <= i < rows.len() && (#[trigger] rows[i]).raw("name"@)->0 == n;
        assert(all[i] == n);
    }
}

/// A page of the catalog takes a search further or ends it with an error, and keeps what
/// the search has found out so far. Fewer than 32 names tell that the catalog is at its end.
pub proof fn searches_go_on_with_the_catalog(s: SearchView, reply: Result<PageView, Failure>)
    ensures
        reply == Err::<PageView, Failure>(Failure::TimedOut) ==> s.after_catalog(reply) == Err::<
            SearchView,
            ResolveErrorView,
        >(
            ResolveErrorView::Unavailable("table catalog discovery timed out; retry this lookup"@),
        ),
        reply is Err && reply->Err_0 != Failure::TimedOut ==> s.after_catalog(reply) == Err::<
            SearchView,
            ResolveErrorView,
        >(
            ResolveErrorView::Unavailable(
                "table catalog is unavailable to the configured identity; resolution cannot complete"@,
            ),
        ),
        reply is Ok && reply->Ok_0.partial ==> s.after_catalog(reply) == Err::<
            SearchView,
            ResolveErrorView,
        >(ResolveErrorView::Unavailable("table catalog returned a partial page"@)),
        reply is Ok && !reply->Ok_0.partial ==> (s.after_catalog(reply) is Ok <==> catalog_failure(
            s.after,
            reply->Ok_0.rows,
            true,
        ) is None),
        s.after_catalog(reply) is Ok ==> ({
            let next = s.after_catalog(reply)->Ok_0;
            let rows = reply->Ok_0.rows;
            &&& next.sys_id == s.sys_id
            &&& next.scanned == s.scanned
            &&& next.unreadable == s.unreadable
            &&& next.after == last_name(s.after, rows)
            &&& next.catalog_complete <==> rows.len() < 32
            &&& next.pending.subrange(0, s.pending.len() as int) == s.pending
            &&& next.pending.subrange(s.pending.len() as int, next.pending.len() as int)
                == new_names(rows, names_of(PRIORITY_TABLES@))
        }),
{
    if s.after_catalog(reply) is Ok {
        let next = s.after_catalog(reply)->Ok_0;
        assert(next.pending.subrange(0, s.pending.len() as int) =~= s.pending);
        assert(next.pending.subrange(s.pending.len() as int, next.pending.len() as int)
            =~= new_names(reply->Ok_0.rows, names_of(PRIORITY_TABLES@)));
    }
}

/// As many tables are asked at once as wait, as the call has left to spend, and as may be
/// asked at the same time, which are eight.
pub proof fn eight_tables_are_asked_at_once(pending: int, remaining: int)
    ensures
        ({
            let n = probe_count(pending, remaining);
            &&& n <= 8
            &&& n <= pending
            &&& n <= remaining
            &&& n == 8 || n == pending || n == remaining
        }),
{
}

/// Tables that are asked no longer wait, come from the front, and are counted.
pub proof fn asked_tables_are_counted(s: SearchView, count: int)
    requires
        0 <= count <= s.pending.len(),
        s.scanned + count <= usize::MAX,
    ensures
        ({
            let next = s.after_taking(count);
            &&& s.pending.subrange(0, count) + next.pending == s.pending
            &&& next.scanned == s.scanned + count
            &&& next.unreadable == s.unreadable
            &&& next.sys_id == s.sys_id
            &&& next.after == s.after
            &&& next.catalog_complete == s.catalog_complete
        }),
{
    assert(s.pending.subrange(0, count) + s.after_taking(count).pending =~= s.pending);
}

/// Counting stops at the largest number there is.
pub proof fn counting_stops_at_the_top(a: usize, b: int)
    requires
        b >= 0,
    ensures
        capped_sum(a, b) <= a + b,
        a + b <= usize::MAX ==> capped_sum(a, b) == a + b,
        a + b > usize::MAX ==> capped_sum(a, b) == usize::MAX,
{
}

/// A reply with a row is a find; the reply that there is no such record says that the table
/// has none; and every other failure says that the table could not be read.
pub proof fn replies_are_told_apart(reply: Result<Row, Failure>, probe: Probe)
    requires
        is_probe_of(reply, probe),
    ensures
        reply is Ok <==> probe is Found,
        reply is Ok ==> probe->Found_0 == reply->Ok_0,
        reply == Err::<Row, Failure>(Failure::Api(404)) <==> probe is Missing,
        reply is Err && reply != Err::<Row, Failure>(Failure::Api(404)) <==> probe is Unreadable,
{
}

/// The rows that were found are those of the finds, in the order in which the tables were
/// asked.
pub proof fn finds_come_in_order(a: Seq<Probe>, b: Seq<Probe>, row: Row, other: Probe)
    requires
        !(other is Found),
    ensures
        found_rows(a + b) == found_rows(a) + found_rows(b),
        found_rows(seq![Probe::Found(row)]) == seq![row@],
        found_rows(seq![other]) == Seq::<RowView>::empty(),
    decreases b.len(),
{
    reveal_with_fuel(found_rows, 2);
    let one = seq![Probe::Found(row)];
    assert(one.drop_last().len() == 0);
    assert(found_rows(one) =~= seq![row@]);
    assert(seq![other].drop_last().len() == 0);
    if b.len() == 0 {
        assert(a + b =~= a);
        assert(found_rows(a + b) =~= found_rows(a) + found_rows(b));
    } else {
        finds_come_in_order(a, b.drop_last(), row, other);
        assert((a + b).drop_last() =~= a + b.drop_last());
        assert(found_rows(a + b) =~= found_rows(a) + found_rows(b));
    }
}

/// A round of a search: with nothing left to spend, or with every table asked, it stops;
/// where no table waits the catalog is read on; else the tables at the front are asked, as
/// many as fit, and each costs one.
pub proof fn rounds_follow_what_is_left(state: SearchView, remaining: int, s: IdSearch)
    requires
        remaining >= 0,
        goes_on(state, remaining, s),
    ensures
        s.stage is Spent <==> remaining == 0 || (state.pending.len() == 0
            && state.catalog_complete),
        s.stage is Catalog <==> remaining > 0 && state.pending.len() == 0
            && !state.catalog_complete,
        s.stage is Probe <==> remaining > 0 && state.pending.len() > 0,
        s.stage is Spent || s.stage is Catalog ==> s.state@ == state && s.remaining == remaining,
        s.stage is Probe ==> ({
            let asked = crate::text::texts(s.stage->tables@);
            &&& 0 < asked.len() <= 8
            &&& asked + s.state@.pending == state.pending
            &&& s.remaining == remaining - asked.len()
            &&& s.state@.sys_id == state.sys_id
            &&& s.state@.unreadable == state.unreadable
        }),
{
    if s.stage is Probe {
        let count = probe_count(state.pending.len() as int, remaining);
        assert(state.pending.subrange(0, count) + state.after_taking(count).pending
            =~= state.pending);
    }
}

/// Rows that answer for an identifier settle it where they all carry it and all tell the
/// same class. A row that was read from its own class is the record; one that was read from
/// a parent is read again. Rows that tell different classes are a contradiction.
pub proof fn answers_settle_the_class(
    before: IdSearch,
    state: SearchView,
    rows: Seq<RowView>,
    r: Result<IdSearch, RecordResolveError>,
)
    requires
        judged(before, state, rows, r),
        rows.len() > 0,
        forall|i: int|
            0 <= i < rows.len() ==> lower((#[trigger] rows[i]).sys_id) == lower(state.sys_id)
                && class_of(rows[i]) is Ok,
    ensures
        ({
            let class = class_of(rows[0])->Ok_0;
            let agreed = forall|i: int|
                0 <= i < rows.len() ==> class_of(#[trigger] rows[i])->Ok_0 == class;
            &&& r is Ok <==> agreed
            &&& !agreed ==> r->Err_0@ == ResolveErrorView::Integrity(
                "sys_id returned conflicting object classes; resolution is ambiguous"@,
            )
            &&& agreed && rows[0].table == class ==> r->Ok_0.stage is Found
                && r->Ok_0.stage->row@ == rows[0] && r->Ok_0.stage->Found_class@ == class
            &&& agreed && rows[0].table != class ==> r->Ok_0.stage is Reread
                && r->Ok_0.stage->Reread_class@ == class
        }),
{
    let check = crate::record_resolver::match_check(state.sys_id);
    crate::table_laws::the_first_failure_counts(rows, check);
    assert forall|i: int| 0 <= i < rows.len() implies check(#[trigger] rows[i]) is None by {
        matches_have_a_class(rows[i], state.sys_id);
    }
    if forall|i: int|
        0 <= i < rows.len() ==> class_of(#[trigger] rows[i])->Ok_0 == class_of(rows[0])->Ok_0 {
        assert(crate::record_resolver::classes_agree(rows));
    }
}

/// A search is taken up under its cursor where the session was used within the last five
/// minutes and is for the same identifier; without a cursor a new one begins while fewer
/// than 32 are live.
pub proof fn searches_are_taken_up_by_cursor(
    before: Sessions<SearchState>,
    after: Sessions<SearchState>,
    cursor: Option<Seq<char>>,
    sys_id: Seq<char>,
    now: u64,
    r: Result<SearchState, RecordResolveError>,
    e: Session<SearchState>,
)
    requires
        after.well_formed(),
        search_opened(before, after, cursor, sys_id, now, r),
    ensures
        cursor is Some && before.entries@.contains(e) && e.token@ == cursor->0 && now < e.touched
            + 300_000 ==> {
            &&& r is Ok <==> e.state.sys_id@ == sys_id
            &&& r is Ok ==> r->Ok_0@ == e.state@
        },
        cursor is Some && r is Err ==> r->Err_0@ == ResolveErrorView::InvalidParams(
            "invalid, expired, or cross-identifier resolution cursor; start again with sys_id only"@,
        ),
        cursor is Some && r is Ok ==> exists|d: Session<SearchState>|
            {
                &&& #[trigger] before.entries@.contains(d)
                &&& d.token@ == cursor->0
                &&& now < d.touched + 300_000
                &&& d.state.sys_id@ == sys_id
                &&& r->Ok_0@ == d.state@
            },
        cursor is None ==> (r is Ok <==> after.entries@.len() < 32),
        cursor is None && r is Ok ==> r->Ok_0@ == SearchView::fresh(sys_id),
        cursor is None && r is Err ==> r->Err_0@ == ResolveErrorView::Unavailable(
            "identifier discovery is at capacity; retry after active searches finish or expire"@,
        ),
{
    lemma_filter_keeps(before.entries@, live_entry(now));
    let live = after.entries@;
    if cursor is Some {
        if live.contains(e) && e.token@ == cursor->0 {
            let i = live.index_of(e);
            assert(live[i] == e);
            sessions_are_found_by_their_token(after, cursor->0, i);
        }
        if r is Ok {
            let i = after.position(cursor->0)->0;
            let all = tokens(live);
            assert(0 <= i < all.len() && all[i] == cursor->0);
            assert(live[i].token@ == cursor->0);
            assert(live.contains(live[i]));
            assert(before.entries@.contains(live[i]));
        }
    }
}

/// A search that has asked every table ends and its session with it; it says how many
/// tables were asked and how many could not be read. Any other is kept, as it stands, under
/// the cursor that it had or else under a new one; it is refused only where it has no
/// session yet and 32 are taken.
pub proof fn unfinished_searches_are_kept(
    before: Sessions<SearchState>,
    after: Sessions<SearchState>,
    cursor: Option<Seq<char>>,
    state: SearchState,
    now: u64,
    token: Seq<char>,
    r: Result<SearchEnd, RecordResolveError>,
    e: Session<SearchState>,
)
    requires
        before.well_formed(),
        parked(before, after, cursor, state, now, token, r),
    ensures
        state@.exhausted() ==> r is Ok && r->Ok_0 == (SearchEnd::NotFound {
            scanned_tables: state.scanned,
            unreadable_tables: state.unreadable,
        }),
        state@.exhausted() && cursor is Some && e.token@ == cursor->0 ==> !after.entries@.contains(
            e,
        ),
        state@.exhausted() && (cursor is Some ==> e.token@ != cursor->0) ==> (
        after.entries@.contains(e) <==> before.entries@.contains(e)),
        !state@.exhausted() && r is Ok ==> ({
            let key = if cursor is Some {
                cursor->0
            } else {
                token
            };
            &&& r->Ok_0 is Searching
            &&& r->Ok_0->cursor@ == key
            &&& r->Ok_0->Searching_scanned_tables == state.scanned
            &&& r->Ok_0->Searching_unreadable_tables == state.unreadable
            &&& e.token@ == key && after.entries@.contains(e) ==> e.state == state && e.touched
                == now
            &&& exists|d: Session<SearchState>|
                {
                    &&& #[trigger] after.entries@.contains(d)
                    &&& d.token@ == key
                    &&& d.state == state
                    &&& d.touched == now
                }
            &&& e.token@ != key ==> (after.entries@.contains(e) <==> before.entries@.contains(e))
        }),
        !state@.exhausted() && before.entries@.len() < 32 ==> r is Ok,
        r is Err ==> after == before && r->Err_0@ == ResolveErrorView::Unavailable(
            "identifier discovery is at capacity"@,
        ),
{
    if state@.exhausted() {
        if cursor is Some {
            ended_sessions_are_gone(before.entries@, cursor->0, e);
        }
    } else if r is Ok {
        let key = if cursor is Some {
            cursor->0
        } else {
            token
        };
        let name = choose|name: String|
            name@ == key && after.entries@ == #[trigger] placed(
                before,
                Session { token: name, touched: now, state },
            );
        let kept = Session { token: name, touched: now, state };
        kept_states_are_found(before, kept, e);
        assert(after.entries@.contains(kept));
    }
}

} // verus!
