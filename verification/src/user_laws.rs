//! Laws of looking up and searching users.
use vstd::prelude::*;

use crate::knowledge_sync::Moment;
use crate::markdown::joined_with;
use crate::query::{DisplayMode, SortKeyView};
use crate::row::RowView;
use crate::selection::{group_selection, selects, Held};
use crate::tables::sys_id_of;
use crate::text::{decimal, has_text, lower, names_of, text_of, trim};
use crate::user::{
    active_text, cache_answers, candidate, display_of, field_truth, given, is_fresh, is_user_of,
    limit_fault, lookup_candidates, lookup_key, query_candidates, search_fault, search_key,
    search_limit, search_query, selector_count, truth_of, CachedUserRow, CandidateView, UserLookup,
    UserRecord, UserSearch, USER_LOOKUP_FIELDS,
};
use crate::user_call::{candidate_query, user_in, Cache, Directory, FoundUser};

verus! {

/// A text is given where it holds more than white space; the blanks around it do not
/// count.
pub proof fn blank_texts_are_not_given(o: Option<Seq<char>>)
    ensures
        given(o) is Some <==> o is Some && trim(o->0).len() > 0,
        given(o) is Some ==> given(o)->0 == trim(o->0),
{
}

/// Exactly one selector is given where one is and every two of them are not.
pub proof fn selectors_are_counted(lookup: UserLookup)
    ensures
        ({
            let q = given(text_of(lookup.query)) is Some;
            let u = given(text_of(lookup.user_name)) is Some;
            let e = given(text_of(lookup.email)) is Some;
            let n = given(text_of(lookup.employee_number)) is Some;
            let i = given(text_of(lookup.sys_id)) is Some;
            &&& selector_count(lookup) == 0 <==> !q && !u && !e && !n && !i
            &&& selector_count(lookup) == 1 <==> (q || u || e || n || i) && !(q && u) && !(q && e)
                && !(q && n) && !(q && i) && !(u && e) && !(u && n) && !(u && i) && !(e && n) && !(e
                && i) && !(n && i)
        }),
{
}

/// A user is looked for by the field of the selector that is given, with its value; an id
/// must be one.
pub proof fn users_are_looked_for_by_the_selector(lookup: UserLookup)
    requires
        selector_count(lookup) == 1,
    ensures
        ({
            let r = lookup_candidates(lookup);
            &&& given(text_of(lookup.user_name)) is Some ==> r is Ok && r->Ok_0 == seq![
                CandidateView {
                    field: "user_name"@,
                    value: given(text_of(lookup.user_name))->0,
                },
            ]
            &&& given(text_of(lookup.email)) is Some ==> r is Ok && r->Ok_0 == seq![
                CandidateView { field: "email"@, value: given(text_of(lookup.email))->0 },
            ]
            &&& given(text_of(lookup.employee_number)) is Some ==> r is Ok && r->Ok_0 == seq![
                CandidateView {
                    field: "employee_number"@,
                    value: given(text_of(lookup.employee_number))->0,
                },
            ]
            &&& given(text_of(lookup.sys_id)) is Some ==> {
                let id = sys_id_of(given(text_of(lookup.sys_id))->0);
                &&& r is Ok <==> id is Some
                &&& r is Ok ==> r->Ok_0 == seq![CandidateView { field: "sys_id"@, value: id->0 }]
            }
            &&& given(text_of(lookup.query)) is Some ==> r is Ok && r->Ok_0 == query_candidates(
                given(text_of(lookup.query))->0,
            )
        }),
{
}

/// A free query with an at sign may be an address or a name, in this order; one that is a
/// sys_id is that; any other may be a name, an address or a number, in this order.
pub proof fn free_queries_are_tried_in_order(query: Seq<char>)
    ensures
        ({
            let c = query_candidates(query);
            let at = exists|i: int| 0 <= i < query.len() && #[trigger] query[i] == '@';
            &&& at ==> c.len() == 2 && c[0].field == "email"@ && c[0].value == query && c[1].field
                == "user_name"@ && c[1].value == query
            &&& !at && sys_id_of(query) is Some ==> c.len() == 1 && c[0].field == "sys_id"@
                && Some(c[0].value) == sys_id_of(query)
            &&& !at && sys_id_of(query) is None ==> c.len() == 3 && c[0].field == "user_name"@
                && c[1].field == "email"@ && c[2].field == "employee_number"@ && c[0].value == query
                && c[1].value == query && c[2].value == query
        }),
{
    if exists|i: int| 0 <= i < query.len() && #[trigger] query[i] == '@' {
        let i = choose|i: int| 0 <= i < query.len() && #[trigger] query[i] == '@';
        assert(query.contains('@'));
    }
}

/// A candidate is asked for by its field and value among the users that are active, or
/// among those that are not; two rows are enough to see that there are several.
pub proof fn candidates_are_asked_for(c: CandidateView, active: bool, held: Held)
    ensures
        ({
            let q = candidate_query(c, active);
            &&& selects(q, held) <==> held(c.field) == c.value && (active ==> held("active"@)
                == "true"@) && (!active ==> held("active"@) == "false"@)
            &&& q.table == "sys_user"@
            &&& q.fields == names_of(USER_LOOKUP_FIELDS@)
            &&& q.limit == Some(2u32)
            &&& q.display == DisplayMode::Both
        }),
{
    broadcast use group_selection;

    assert(candidate_query(c, active).fields =~= names_of(USER_LOOKUP_FIELDS@));
}

/// What is read of a user.
pub proof fn users_are_read_with_their_names()
    ensures
        USER_LOOKUP_FIELDS@.len() == 11,
        USER_LOOKUP_FIELDS@[0]@ == "sys_id"@,
        USER_LOOKUP_FIELDS@[1]@ == "user_name"@,
        USER_LOOKUP_FIELDS@[2]@ == "name"@,
        USER_LOOKUP_FIELDS@[3]@ == "first_name"@,
        USER_LOOKUP_FIELDS@[4]@ == "last_name"@,
        USER_LOOKUP_FIELDS@[5]@ == "email"@,
        USER_LOOKUP_FIELDS@[6]@ == "employee_number"@,
        USER_LOOKUP_FIELDS@[7]@ == "active"@,
        USER_LOOKUP_FIELDS@[8]@ == "department"@,
        USER_LOOKUP_FIELDS@[9]@ == "location"@,
        USER_LOOKUP_FIELDS@[10]@ == "title"@,
{
}

/// A search is accepted where its limit is from one to a hundred, twenty where nothing is
/// said, and at least one name or address is given.
pub proof fn searches_name_someone(search: UserSearch)
    ensures
        search_fault(search) is None <==> {
            &&& search.limit is Some ==> 1 <= search.limit->0 <= 100
            &&& given(text_of(search.first_name)) is Some || given(
                text_of(search.last_name),
            ) is Some || given(text_of(search.name_contains)) is Some || given(
                text_of(search.email_contains),
            ) is Some
        },
        search.limit is Some ==> search_limit(search.limit) == search.limit->0,
        search.limit is None ==> search_limit(search.limit) == 20,
        limit_fault(search.limit) is None <==> (search.limit is Some ==> 1 <= search.limit->0
            <= 100),
{
}

/// A search asks for the users, active ones unless others are wanted, that meet each
/// filter that is given: the first and the last name as they are, a part of the name, a
/// part of the address.
pub proof fn searches_ask_for_what_was_given(search: UserSearch, held: Held)
    ensures
        ({
            let q = search_query(search);
            &&& selects(q, held) <==> {
                &&& search.active == Some(false) ==> held("active"@) == "false"@
                &&& search.active != Some(false) ==> held("active"@) == "true"@
                &&& given(text_of(search.first_name)) is Some ==> held("first_name"@) == given(
                    text_of(search.first_name),
                )->0
                &&& given(text_of(search.last_name)) is Some ==> held("last_name"@) == given(
                    text_of(search.last_name),
                )->0
                &&& given(text_of(search.name_contains)) is Some ==> has_text(
                    held("name"@),
                    given(text_of(search.name_contains))->0,
                )
                &&& given(text_of(search.email_contains)) is Some ==> has_text(
                    held("email"@),
                    given(text_of(search.email_contains))->0,
                )
            }
            &&& q.table == "sys_user"@
            &&& q.fields == names_of(USER_LOOKUP_FIELDS@)
            &&& q.order == seq![SortKeyView { field: "name"@, descending: false }]
            &&& q.limit == Some(search_limit(search.limit) as u32)
            &&& q.display == DisplayMode::Both
        }),
{
    broadcast use group_selection;

    let q = search_query(search);
    assert(q.fields =~= names_of(USER_LOOKUP_FIELDS@));
    assert(q.order =~= seq![SortKeyView { field: "name"@, descending: false }]);
}

/// The texts that say yes and those that say no, in any case.
pub proof fn truths_are_written_in_words(value: Seq<char>)
    ensures
        ({
            let t = lower(trim(value));
            &&& truth_of(value) == Some(true) <==> t == "true"@ || t == "1"@ || t == "yes"@
            &&& truth_of(value) == Some(false) <==> t == "false"@ || t == "0"@ || t == "no"@
        }),
{
    reveal_strlit("true");
    reveal_strlit("1");
    reveal_strlit("yes");
    reveal_strlit("false");
    reveal_strlit("0");
    reveal_strlit("no");
    assert("true"@[0] == 't');
    assert("yes"@[0] == 'y');
    assert("1"@[0] == '1');
    assert("false"@[0] == 'f');
    assert("0"@[0] == '0');
    assert("no"@[0] == 'n');
}

/// A field that holds a truth value says that; else its text, else what is shown.
pub proof fn fields_say_their_truth(row: RowView, field: Seq<char>)
    ensures
        row.other(field) == Some("true"@) ==> field_truth(row, field) == Some(true),
        row.other(field) == Some("false"@) ==> field_truth(row, field) == Some(false),
        row.other(field) is None && row.raw(field) is Some && truth_of(
            row.raw(field)->0,
        ) is Some ==> field_truth(row, field) == truth_of(row.raw(field)->0),
        row.other(field) is None && (row.raw(field) is None || truth_of(row.raw(field)->0) is None)
            && row.display(field) is Some ==> field_truth(row, field) == truth_of(
            row.display(field)->0,
        ),
        row.other(field) is None && row.raw(field) is None && row.display(field) is None
            ==> field_truth(row, field) is None,
{
    reveal_strlit("true");
    reveal_strlit("false");
    assert("true"@[0] == 't');
    assert("false"@[0] == 'f');
}

/// A user is shown by the name, else by the user name, else by the address, else by the
/// id.
pub proof fn users_are_shown_by_their_name(
    name: Option<Seq<char>>,
    user_name: Option<Seq<char>>,
    email: Option<Seq<char>>,
    sys_id: Seq<char>,
)
    ensures
        given(name) is Some ==> display_of(name, user_name, email, sys_id) == given(name)->0,
        given(name) is None && given(user_name) is Some ==> display_of(
            name,
            user_name,
            email,
            sys_id,
        ) == given(user_name)->0,
        given(name) is None && given(user_name) is None && given(email) is Some ==> display_of(
            name,
            user_name,
            email,
            sys_id,
        ) == given(email)->0,
        given(name) is None && given(user_name) is None && given(email) is None ==> display_of(
            name,
            user_name,
            email,
            sys_id,
        ) == sys_id,
{
}

/// The user of a row holds what the row shows, each of its parts from its own field.
pub proof fn users_hold_what_their_row_shows(u: UserRecord, row: RowView)
    requires
        is_user_of(u, row),
    ensures
        u.sys_id@ == row.sys_id,
        u.table@ == "sys_user"@,
        text_of(u.user_name) == given(row.shown("user_name"@)),
        text_of(u.name) == given(row.shown("name"@)),
        text_of(u.first_name) == given(row.shown("first_name"@)),
        text_of(u.last_name) == given(row.shown("last_name"@)),
        text_of(u.email) == given(row.shown("email"@)),
        text_of(u.employee_number) == given(row.shown("employee_number"@)),
        text_of(u.department) == given(row.shown("department"@)),
        text_of(u.location) == given(row.shown("location"@)),
        text_of(u.title) == given(row.shown("title"@)),
        u.active == field_truth(row, "active"@),
        u.display@ == display_of(
            text_of(u.name),
            text_of(u.user_name),
            text_of(u.email),
            row.sys_id,
        ),
{
    assert forall|o: Option<Seq<char>>| #[trigger] given(given(o)) == given(o) by {
        if given(o) is Some {
            crate::text::lemma_trim_idempotent(o->0);
        }
    }
    assert(given(given(row.shown("name"@))) == given(row.shown("name"@)));
    assert(given(given(row.shown("user_name"@))) == given(row.shown("user_name"@)));
    assert(given(given(row.shown("email"@))) == given(row.shown("email"@)));
}

/// What was kept of a user is still good while no more than so many seconds have passed.
pub proof fn kept_users_grow_old(synced_at: Moment, now: Moment, ttl: i64)
    ensures
        is_fresh(synced_at, now, ttl) <==> (now.seconds - synced_at.seconds) * 1_000_000_000 + (
        now.nanos - synced_at.nanos) <= ttl * 1_000_000_000,
{
}

/// The cache answers where nobody was found before, or where every one who was is kept
/// and still good.
pub proof fn the_cache_answers_with_everyone(
    ids: nat,
    rows: Seq<CachedUserRow>,
    now: Moment,
    ttl: i64,
)
    ensures
        ids == 0 ==> cache_answers(ids, rows, now, ttl),
        ids > 0 && rows.len() != ids ==> !cache_answers(ids, rows, now, ttl),
        ids > 0 && rows.len() == ids ==> (cache_answers(ids, rows, now, ttl) <==> forall|i: int|
            0 <= i < rows.len() ==> is_fresh((#[trigger] rows[i]).synced_at, now, ttl)),
{
}

/// The key of a lookup names the field, the value in small letters and whether active
/// users are looked for.
pub proof fn lookup_keys_name_field_and_value(field: Seq<char>, value: Seq<char>)
    ensures
        lookup_key(field, value, true) == "lookup|active=true|"@ + field + "="@ + lower(
            trim(value),
        ),
        lookup_key(field, value, false) == "lookup|active=false|"@ + field + "="@ + lower(
            trim(value),
        ),
{
    reveal_strlit("lookup|active=");
    reveal_strlit("true");
    reveal_strlit("false");
    reveal_strlit("|");
    reveal_strlit("lookup|active=true|");
    reveal_strlit("lookup|active=false|");
    assert("lookup|active="@ + "true"@ + "|"@ =~= "lookup|active=true|"@);
    assert("lookup|active="@ + "false"@ + "|"@ =~= "lookup|active=false|"@);
}

/// The key of a search with a single filter names it and the limit.
pub proof fn search_keys_name_the_filters(search: UserSearch, part: Seq<char>)
    requires
        search.active != Some(false),
        ({
            let f = given(text_of(search.first_name));
            let l = given(text_of(search.last_name));
            let n = given(text_of(search.name_contains));
            let e = given(text_of(search.email_contains));
            ||| f is Some && l is None && n is None && e is None && part == "first_name="@ + lower(
                trim(f->0),
            )
            ||| f is None && l is Some && n is None && e is None && part == "last_name="@ + lower(
                trim(l->0),
            )
            ||| f is None && l is None && n is Some && e is None && part == "name_contains="@
                + lower(trim(n->0))
            ||| f is None && l is None && n is None && e is Some && part == "email_contains="@
                + lower(trim(e->0))
        }),
    ensures
        search_key(search) == "search|active=true|"@ + part + "|limit="@ + decimal(
            search_limit(search.limit) as nat,
        ),
{
    reveal_strlit("search|");
    reveal_strlit("active=");
    reveal_strlit("true");
    reveal_strlit("|");
    reveal_strlit("limit=");
    reveal_strlit("search|active=true|");
    reveal_strlit("|limit=");
    let first = "active="@ + "true"@;
    let limit = "limit="@ + decimal(search_limit(search.limit) as nat);
    let parts = seq![first, part, limit];
    let all = seq!["active="@ + active_text(true)] + crate::user::key_part(
        "first_name="@,
        text_of(search.first_name),
    ) + crate::user::key_part("last_name="@, text_of(search.last_name)) + crate::user::key_part(
        "name_contains="@,
        text_of(search.name_contains),
    ) + crate::user::key_part("email_contains="@, text_of(search.email_contains)) + seq![limit];
    assert(all =~= parts);
    reveal_with_fuel(joined_with, 4);
    assert(parts.drop_last() =~= seq![first, part]);
    assert(seq![first, part].drop_last() =~= seq![first]);
    assert(seq![first].drop_last() =~= Seq::<Seq<char>>::empty());
    assert(search_key(search) =~= "search|active=true|"@ + part + "|limit="@ + decimal(
        search_limit(search.limit) as nat,
    ));
}

/// The first candidate for whom somebody is found decides: one user is the answer, by
/// that candidate's field, and several are none; where the cache has an answer the
/// provider is not asked.
pub proof fn the_first_candidate_found_decides(
    cache: Cache,
    directory: Directory,
    candidates: Seq<CandidateView>,
    active: bool,
    from: int,
)
    requires
        0 <= from < candidates.len(),
    ensures
        ({
            let c = candidates[from];
            let kept = cache(lookup_key(c.field, c.value, active));
            let users = if kept is Some {
                kept->0
            } else {
                directory(candidate_query(c, active))
            };
            let r = user_in(cache, directory, candidates, active, from);
            &&& users.len() == 0 ==> r == user_in(cache, directory, candidates, active, from + 1)
            &&& users.len() == 1 ==> r == FoundUser::Ok(Some((c.field, users[0])))
            &&& users.len() > 1 ==> r is Err
        }),
        user_in(cache, directory, candidates, active, candidates.len() as int) == FoundUser::Ok(
            None,
        ),
{
}

} // verus!
