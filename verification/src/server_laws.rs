//! Laws of reading and searching servers.
use vstd::prelude::*;

use crate::article::is_blank;
use crate::query::{DisplayMode, Operator, QueryView, SortKeyView};
use crate::row::{Failure, Row};
use crate::selection::{
    among, group_selection, lemma_or, meets, meets_all, meets_last, references_are_looked_for,
    selects, Held,
};
use crate::server::{
    capped, classified, error_text, exact_query, find_error, read_error, read_form, server_page,
    server_search, ServerFailure, ServerGetErrorView, ServerQuery,
};
use crate::tables::{sys_id_of, SERVER_TABLE};
use crate::text::{decimal, has_text, text_of, trim};
use crate::user::given;

verus! {

/// What a failure means: a refusal is told apart from a provider that cannot be reached,
/// and both from anything else.
pub proof fn refusals_are_no_outages(f: ServerFailure)
    ensures
        ({
            let refused = f.failure == Failure::Api(401) || f.failure == Failure::Api(403)
                || f.failure is Auth;
            let away = f.failure is Http || f.failure is RateLimited;
            &&& classified(f) is AclRestricted <==> refused || (!away && f.refuses_access)
            &&& classified(f) is Network <==> away
            &&& classified(f) is Other <==> !refused && !away && !f.refuses_access
            &&& classified(f) is AclRestricted ==> classified(f)->AclRestricted_0 == f.message@
            &&& classified(f) is Network ==> classified(f)->Network_0 == f.message@
            &&& classified(f) is Other ==> classified(f)->Other_0 == f.message@
        }),
{
}

/// The errors in words.
pub proof fn errors_are_told_in_words(d: Seq<char>, selector: Seq<char>, n: nat)
    ensures
        error_text(ServerGetErrorView::NotFound) == "server not found"@,
        error_text(ServerGetErrorView::AclRestricted(d)) == "server is ACL-restricted: "@ + d,
        error_text(ServerGetErrorView::Network(d)) == "network error reaching ServiceNow: "@ + d,
        error_text(ServerGetErrorView::Disambiguation { selector, matched: n })
            == "multiple servers matched "@ + selector + " ("@ + decimal(n) + " matches)"@,
        error_text(ServerGetErrorView::Hydration(d)) == "server record failed hydration: "@ + d,
        error_text(ServerGetErrorView::Other(d)) == d,
{
}

/// A server is asked for by one value in one field, whatever its class; two rows are
/// enough to see that there are several.
pub proof fn servers_are_asked_for_by_one_field(field: Seq<char>, value: Seq<char>, held: Held)
    ensures
        ({
            let q = exact_query(field, value);
            &&& selects(q, held) <==> held(field) == value
            &&& q.table == "cmdb_ci_server"@
            &&& q.limit == Some(2u32)
            &&& q.order == seq![SortKeyView { field: "name"@, descending: false }]
            &&& q.display == DisplayMode::Both
            &&& q.without_links
            &&& read_form().table == "cmdb_ci_server"@
            &&& read_form().display == DisplayMode::Both
            &&& read_form().without_links
            &&& read_form().conditions.len() == 0
        }),
{
    broadcast use group_selection;

    assert(exact_query(field, value).order =~= seq![
        SortKeyView { field: "name"@, descending: false },
    ]);
}

/// A reply is an error where the request failed; a query's also where it brought none or
/// several, which it counts.
pub proof fn replies_are_judged_by_what_they_bring(
    read: Result<Row, ServerFailure>,
    found: Result<Vec<Row>, ServerFailure>,
    selector: Seq<char>,
)
    ensures
        read_error(read) is None <==> read is Ok,
        read is Err && read->Err_0.failure != Failure::Api(404) ==> read_error(read) == Some(
            classified(read->Err_0),
        ),
        find_error(found, selector) is None <==> found is Ok && found->Ok_0@.len() == 1,
        found is Ok && found->Ok_0@.len() > 1 ==> find_error(found, selector) == Some(
            ServerGetErrorView::Disambiguation { selector, matched: found->Ok_0@.len() },
        ),
        found is Err ==> find_error(found, selector) == Some(classified(found->Err_0)),
{
}

/// A search asks for the servers of the class that is given, of any class where none is or
/// the general one, and that meet each other filter that is given.
pub proof fn server_searches_ask_for_what_was_given(
    q: ServerQuery,
    leaf_tables: Seq<Seq<char>>,
    held: Held,
)
    ensures
        ({
            let s = server_search(q, leaf_tables);
            let class = given(text_of(q.class));
            let owner = text_of(q.ci_owner_group);
            &&& selects(s, held) <==> {
                &&& class is Some && class->0 != "cmdb_ci_server"@ ==> held("sys_class_name"@)
                    == class->0
                &&& class is None || class->0 == "cmdb_ci_server"@ ==> among(
                    held("sys_class_name"@),
                    leaf_tables,
                )
                &&& given(text_of(q.name)) is Some ==> has_text(
                    held("name"@),
                    given(text_of(q.name))->0,
                )
                &&& given(text_of(q.ip_address)) is Some ==> held("ip_address"@) == given(
                    text_of(q.ip_address),
                )->0
                &&& owner is Some && !is_blank(owner->0) ==> match sys_id_of(owner->0) {
                    Some(id) => held("managed_by_group"@) == id,
                    None => has_text(held("managed_by_group"@ + ".name"@), trim(owner->0)),
                }
            }
            &&& s.table == "cmdb_ci_server"@
            &&& s.order == seq![SortKeyView { field: "name"@, descending: false }]
            &&& s.display == DisplayMode::Both
            &&& s.without_links
            &&& s.limit is None
            &&& s.offset is None
        }),
{
    broadcast use group_selection;

    reveal(server_search);
    let base = QueryView::of(SERVER_TABLE@).display(DisplayMode::Both).no_links().ascending(
        "name"@,
    );
    let classed = match given(text_of(q.class)) {
        Some(class) => if class != SERVER_TABLE@ {
            base.equals("sys_class_name"@, class)
        } else {
            base.in_list("sys_class_name"@, leaf_tables)
        },
        None => base.in_list("sys_class_name"@, leaf_tables),
    };
    let named = crate::user::contains_given(classed, "name"@, given(text_of(q.name)));
    let placed = crate::user::equals_given(named, "ip_address"@, given(text_of(q.ip_address)));
    references_are_looked_for(placed, "managed_by_group"@, text_of(q.ci_owner_group), held);
    assert(base.order =~= seq![SortKeyView { field: "name"@, descending: false }]);
}

/// A page of a search asks for what the search does; a text is looked for in the name, in
/// the description or in the address.
pub proof fn server_pages_look_for_a_text(
    q: ServerQuery,
    leaf_tables: Seq<Seq<char>>,
    limit: int,
    offset: int,
    held: Held,
)
    ensures
        ({
            let p = server_page(q, leaf_tables, limit, offset);
            let t = given(text_of(q.text));
            &&& selects(p, held) <==> {
                &&& selects(server_search(q, leaf_tables), held)
                &&& t is Some ==> has_text(held("name"@), t->0) || has_text(
                    held("short_description"@),
                    t->0,
                ) || has_text(held("ip_address"@), t->0)
            }
            &&& 0 <= limit <= u32::MAX ==> p.limit == Some(limit as u32)
            &&& 0 <= offset <= u32::MAX ==> p.offset == Some(offset as u32)
            &&& limit > u32::MAX ==> p.limit == Some(u32::MAX)
            &&& p.table == "cmdb_ci_server"@
        }),
{
    broadcast use group_selection;

    server_searches_ask_for_what_was_given(q, leaf_tables, held);
    let base = server_search(q, leaf_tables).limit(capped(limit)).offset(capped(offset));
    let t = given(text_of(q.text));
    if t is Some {
        let one = base.contains("name"@, t->0);
        let two = one.when(true, "short_description"@, Operator::Contains, t->0);
        let three = two.when(true, "ip_address"@, Operator::Contains, t->0);
        assert(one.conditions.drop_last() =~= base.conditions);
        assert(two.conditions.drop_last() =~= one.conditions);
        assert(three.conditions.drop_last() =~= two.conditions);
        lemma_or(one.conditions, two.conditions.last(), held);
        lemma_or(two.conditions, three.conditions.last(), held);
        assert(crate::selection::earlier(one.conditions) == base.conditions);
        assert(crate::selection::earlier(two.conditions) == base.conditions);
        assert(meets(two.conditions.last(), held) <==> has_text(held("short_description"@), t->0));
        assert(meets(three.conditions.last(), held) <==> has_text(held("ip_address"@), t->0));
        assert(meets(one.conditions.last(), held) <==> has_text(held("name"@), t->0));
        assert(meets_last(one.conditions, held) <==> has_text(held("name"@), t->0));
        assert(meets_last(two.conditions, held) <==> has_text(held("short_description"@), t->0)
            || has_text(held("name"@), t->0));
        assert(selects(base, held) == meets_all(base.conditions, held));
    }
}

} // verus!
