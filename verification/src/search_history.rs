//! What holds of a search for a sys_id over all of its rounds and calls.
use vstd::prelude::*;

use crate::catalog::{catalog_names, last_name, new_names, not_listed};
use crate::id_search::{goes_on, IdSearch, IdStage};
use crate::listing::ascending;
use crate::record_error::RecordResolveError;
use crate::record_resolver::{
    any_lost, capped_sum, found_rows, parked, probe_count, search_opened, unreadable_count, Probe,
    SearchEnd, SearchState, SearchView, CATALOG_PAGE, PRIORITY_TABLES, PROBE_BUDGET,
};
use crate::row::PageView;
use crate::session::{is_live, live_entry, tokens, Sessions};
use crate::text::{lemma_text_less_transitive, names_of, text_less, texts};

verus! {

/// The tables that are asked first.
pub open spec fn priority() -> Seq<Seq<char>> {
    names_of(PRIORITY_TABLES@)
}

/// Whether a name is behind another; everything is behind nothing.
pub open spec fn is_behind(after: Seq<char>) -> spec_fn(Seq<char>) -> bool {
    |n: Seq<char>| after.len() == 0 || text_less(after, n)
}

/// A page of the catalog is what its query asks for: the names behind the last
/// one, in order, as many as a page holds.
pub open spec fn is_catalog_page(
    catalog: Seq<Seq<char>>,
    after: Seq<char>,
    page: PageView,
) -> bool {
    let rest = catalog.filter(is_behind(after));
    !page.partial && catalog_names(page.rows) == (if rest.len() < CATALOG_PAGE {
        rest
    } else {
        rest.subrange(0, CATALOG_PAGE as int)
    })
}

/// The names of the catalog are in order, and none is empty.
pub open spec fn is_catalog(catalog: Seq<Seq<char>>) -> bool {
    ascending(catalog) && forall|i: int| 0 <= i < catalog.len() ==> (#[trigger] catalog[i]).len() > 0
}

/// One round of a search that finds nothing: a page of the catalog was read, or
/// some tables were asked and have no such record, or a further call took the
/// search up.
pub open spec fn searched_on(catalog: Seq<Seq<char>>, before: IdSearch, after: IdSearch) -> bool {
    match before.stage {
        IdStage::Catalog => exists|page: PageView|
            #![trigger is_catalog_page(catalog, before.state@.after, page)]
            {
                &&& is_catalog_page(catalog, before.state@.after, page)
                &&& before.state@.after_catalog(Ok(page)) is Ok
                &&& ({
                    let next = before.state@.after_catalog(Ok(page))->Ok_0;
                    goes_on(
                        next,
                        if next.pending.len() == 0 {
                            before.remaining - 1
                        } else {
                            before.remaining as int
                        },
                        after,
                    )
                })
            },
        IdStage::Probe { tables } => exists|probes: Seq<Probe>|
            #![trigger found_rows(probes)]
            {
                &&& found_rows(probes).len() == 0
                &&& !any_lost(probes)
                &&& goes_on(
                    SearchView {
                        unreadable: capped_sum(before.state.unreadable, unreadable_count(probes)),
                        ..before.state@
                    },
                    before.remaining as int,
                    after,
                )
            },
        IdStage::Spent => !before.state@.exhausted() && goes_on(
            before.state@,
            PROBE_BUDGET as int,
            after,
        ),
        _ => false,
    }
}

/// The rounds of a search from its beginning.
pub open spec fn search_rounds(
    catalog: Seq<Seq<char>>,
    sys_id: Seq<char>,
    rounds: Seq<IdSearch>,
) -> bool {
    &&& rounds.len() > 0
    &&& goes_on(SearchView::fresh(sys_id), PROBE_BUDGET as int, rounds[0])
    &&& forall|k: int|
        0 <= k < rounds.len() - 1 ==> searched_on(catalog, #[trigger] rounds[k], rounds[k + 1])
}

/// The tables that were asked, in order.
pub open spec fn tables_asked(rounds: Seq<IdSearch>) -> Seq<Seq<char>>
    decreases rounds.len(),
{
    if rounds.len() == 0 {
        Seq::empty()
    } else {
        let before = tables_asked(rounds.drop_last());
        match rounds.last().stage {
            IdStage::Probe { tables } => before + texts(tables@),
            _ => before,
        }
    }
}

/// Some tables, and all others of a catalog.
pub open spec fn tables_of(first: Seq<Seq<char>>, catalog: Seq<Seq<char>>) -> Seq<Seq<char>> {
    first + catalog.filter(not_listed(first))
}

/// Every table of a catalog in the order in which a search asks them.
pub open spec fn every_table(catalog: Seq<Seq<char>>) -> Seq<Seq<char>> {
    tables_of(priority(), catalog)
}

/// How much of the catalog was read: the first `read` names.
pub open spec fn read_up_to(catalog: Seq<Seq<char>>, read: int) -> Seq<char> {
    if read == 0 {
        ""@
    } else {
        catalog[read - 1]
    }
}

/// The tables that were asked and those that wait are the ones asked first and
/// what was read of the catalog; and they are counted.
pub open spec fn accounted(
    catalog: Seq<Seq<char>>,
    state: SearchView,
    asked: Seq<Seq<char>>,
    read: int,
) -> bool {
    &&& 0 <= read <= catalog.len()
    &&& state.after == read_up_to(catalog, read)
    &&& asked + state.pending == every_table(catalog.subrange(0, read))
    &&& state.catalog_complete ==> read == catalog.len()
    &&& state.scanned == capped_sum(0, asked.len() as int)
}

/// The names behind the `read`-th are the rest of the catalog.
pub proof fn lemma_rest(catalog: Seq<Seq<char>>, read: int, to: int)
    requires
        is_catalog(catalog),
        0 <= read <= catalog.len(),
        0 <= to <= catalog.len(),
    ensures
        catalog.subrange(0, to).filter(is_behind(read_up_to(catalog, read))) == (if to <= read {
            Seq::empty()
        } else {
            catalog.subrange(read, to)
        }),
    decreases to,
{
    reveal(Seq::filter);
    reveal_strlit("");
    let keep = is_behind(read_up_to(catalog, read));
    if to > 0 {
        lemma_rest(catalog, read, to - 1);
        let s = catalog.subrange(0, to);
        assert(s.drop_last() =~= catalog.subrange(0, to - 1));
        let n = catalog[to - 1];
        assert(s.last() == n);
        if to <= read {
            // The name is not behind itself, nor behind a later one.
            let c = catalog[read - 1];
            assert(!text_less(c, n)) by {
                if text_less(c, n) {
                    if to < read {
                        assert(text_less(catalog[to - 1], catalog[read - 1]));
                        lemma_text_less_transitive(n, c, n);
                    }
                    crate::text::lemma_text_order(n, n, n);
                }
            }
            assert(c.len() > 0);
            assert(s.filter(keep) =~= Seq::empty());
        } else {
            if read > 0 {
                assert(text_less(catalog[read - 1], catalog[to - 1]));
            }
            assert(keep(n));
            if to - 1 <= read {
                assert(s.filter(keep) =~= catalog.subrange(read, to));
            } else {
                assert(s.filter(keep) =~= catalog.subrange(read, to));
            }
        }
    } else {
        assert(catalog.subrange(0, 0) =~= Seq::empty());
        assert(catalog.subrange(0, to).filter(keep) =~= Seq::empty());
    }
}

proof fn lemma_filter_joins(a: Seq<Seq<char>>, b: Seq<Seq<char>>, keep: spec_fn(Seq<char>) -> bool)
    ensures
        (a + b).filter(keep) == a.filter(keep) + b.filter(keep),
    decreases b.len(),
{
    reveal(Seq::filter);
    if b.len() == 0 {
        assert(a + b =~= a);
        assert(a.filter(keep) + b.filter(keep) =~= a.filter(keep));
    } else {
        lemma_filter_joins(a, b.drop_last(), keep);
        assert((a + b).drop_last() =~= a + b.drop_last());
        assert((a + b).last() == b.last());
        assert((a + b).filter(keep) =~= a.filter(keep) + b.filter(keep));
    }
}

/// A page of the catalog goes on where the last one ended.
pub proof fn lemma_page_read(
    catalog: Seq<Seq<char>>,
    first: Seq<Seq<char>>,
    read: int,
    page: PageView,
) -> (now_read: int)
    requires
        is_catalog(catalog),
        0 <= read <= catalog.len(),
        is_catalog_page(catalog, read_up_to(catalog, read), page),
    ensures
        read <= now_read <= catalog.len(),
        last_name(read_up_to(catalog, read), page.rows) == read_up_to(catalog, now_read),
        tables_of(first, catalog.subrange(0, now_read)) == tables_of(
            first,
            catalog.subrange(0, read),
        ) + new_names(page.rows, first),
        page.rows.len() < CATALOG_PAGE ==> now_read == catalog.len(),
{
    lemma_rest(catalog, read, catalog.len() as int);
    assert(catalog.subrange(0, catalog.len() as int) =~= catalog);
    let rest = catalog.subrange(read, catalog.len() as int);
    let names = catalog_names(page.rows);
    let now_read = read + names.len();
    assert(names =~= catalog.subrange(read, now_read));
    assert(catalog.subrange(0, read) + names =~= catalog.subrange(0, now_read));
    lemma_filter_joins(catalog.subrange(0, read), names, not_listed(first));
    let added = new_names(page.rows, first);
    let known = catalog.subrange(0, read).filter(not_listed(first));
    assert((first + known) + added =~= first + (known + added));
    if page.rows.len() > 0 {
        assert(names[names.len() - 1] == catalog[now_read - 1]);
    }
    now_read
}

/// A page of the catalog keeps the account.
proof fn lemma_page_accounted(
    catalog: Seq<Seq<char>>,
    state: SearchView,
    asked: Seq<Seq<char>>,
    read: int,
    page: PageView,
) -> (now_read: int)
    requires
        is_catalog(catalog),
        accounted(catalog, state, asked, read),
        is_catalog_page(catalog, state.after, page),
        state.after_catalog(Ok(page)) is Ok,
    ensures
        accounted(catalog, state.after_catalog(Ok(page))->Ok_0, asked, now_read),
{
    let next = state.after_catalog(Ok(page))->Ok_0;
    let now_read = lemma_page_read(catalog, priority(), read, page);
    assert(asked + next.pending =~= (asked + state.pending) + new_names(page.rows, priority()));
    now_read
}

/// Going on keeps the account.
proof fn lemma_goes_on_accounted(
    catalog: Seq<Seq<char>>,
    state: SearchView,
    remaining: int,
    asked: Seq<Seq<char>>,
    read: int,
    s: IdSearch,
)
    requires
        remaining >= 0,
        accounted(catalog, state, asked, read),
        goes_on(state, remaining, s),
    ensures
        accounted(
            catalog,
            s.state@,
            match s.stage {
                IdStage::Probe { tables } => asked + texts(tables@),
                _ => asked,
            },
            read,
        ),
{
    if let IdStage::Probe { tables } = s.stage {
        let count = probe_count(state.pending.len() as int, remaining);
        assert((asked + texts(tables@)) + s.state@.pending =~= asked + state.pending);
    }
}

/// The account at every round.
proof fn lemma_accounted(
    catalog: Seq<Seq<char>>,
    sys_id: Seq<char>,
    rounds: Seq<IdSearch>,
) -> (read: int)
    requires
        is_catalog(catalog),
        search_rounds(catalog, sys_id, rounds),
    ensures
        accounted(catalog, rounds.last().state@, tables_asked(rounds), read),
    decreases rounds.len(),
{
    let front = rounds.drop_last();
    let last = rounds.last();
    if rounds.len() == 1 {
        let fresh = SearchView::fresh(sys_id);
        let none: Seq<Seq<char>> = Seq::empty();
        assert(front =~= Seq::empty());
        assert(tables_asked(front) =~= none);
        assert(catalog.subrange(0, 0) =~= none);
        reveal(Seq::filter);
        assert(none + fresh.pending =~= every_table(catalog.subrange(0, 0)));
        assert(accounted(catalog, fresh, none, 0));
        lemma_goes_on_accounted(catalog, fresh, PROBE_BUDGET as int, none, 0, last);
        0
    } else {
        assert forall|k: int| 0 <= k < front.len() - 1 implies searched_on(
            catalog,
            #[trigger] front[k],
            front[k + 1],
        ) by {
            assert(searched_on(catalog, rounds[k], rounds[k + 1]));
        }
        let read = lemma_accounted(catalog, sys_id, front);
        let before = rounds[rounds.len() - 2];
        assert(front.last() == before);
        assert(searched_on(catalog, before, rounds[rounds.len() - 2 + 1]));
        let asked = tables_asked(front);
        lemma_left(catalog, sys_id, rounds, rounds.len() - 2);
        match before.stage {
            IdStage::Catalog => {
                let page = choose|page: PageView|
                    #![trigger is_catalog_page(catalog, before.state@.after, page)]
                    {
                        &&& is_catalog_page(catalog, before.state@.after, page)
                        &&& before.state@.after_catalog(Ok(page)) is Ok
                        &&& ({
                            let next = before.state@.after_catalog(Ok(page))->Ok_0;
                            goes_on(
                                next,
                                if next.pending.len() == 0 {
                                    before.remaining - 1
                                } else {
                                    before.remaining as int
                                },
                                last,
                            )
                        })
                    };
                let next = before.state@.after_catalog(Ok(page))->Ok_0;
                let now_read = lemma_page_accounted(catalog, before.state@, asked, read, page);
                lemma_goes_on_accounted(
                    catalog,
                    next,
                    if next.pending.len() == 0 {
                        before.remaining - 1
                    } else {
                        before.remaining as int
                    },
                    asked,
                    now_read,
                    last,
                );
                now_read
            },
            IdStage::Probe { tables } => {
                let probes = choose|probes: Seq<Probe>|
                    #![trigger found_rows(probes)]
                    {
                        &&& found_rows(probes).len() == 0
                        &&& !any_lost(probes)
                        &&& goes_on(
                            SearchView {
                                unreadable: capped_sum(
                                    before.state.unreadable,
                                    unreadable_count(probes),
                                ),
                                ..before.state@
                            },
                            before.remaining as int,
                            last,
                        )
                    };
                let state = SearchView {
                    unreadable: capped_sum(before.state.unreadable, unreadable_count(probes)),
                    ..before.state@
                };
                assert(accounted(catalog, state, asked, read));
                lemma_goes_on_accounted(
                    catalog,
                    state,
                    before.remaining as int,
                    asked,
                    read,
                    last,
                );
                read
            },
            _ => {
                lemma_goes_on_accounted(
                    catalog,
                    before.state@,
                    PROBE_BUDGET as int,
                    asked,
                    read,
                    last,
                );
                read
            },
        }
    }
}

/// The catalog is read only while the call has something left.
proof fn lemma_left(catalog: Seq<Seq<char>>, sys_id: Seq<char>, rounds: Seq<IdSearch>, k: int)
    requires
        search_rounds(catalog, sys_id, rounds),
        0 <= k < rounds.len(),
    ensures
        rounds[k].stage is Catalog ==> rounds[k].remaining > 0,
    decreases k,
{
    if k > 0 {
        lemma_left(catalog, sys_id, rounds, k - 1);
        assert(searched_on(catalog, rounds[k - 1], rounds[k - 1 + 1]));
    }
}

/// That a record is nowhere is told only once every table was asked: those that
/// are asked first, then all others of the catalog; and as many are told. While one
/// was not asked yet, the search goes on.
pub proof fn absence_means_every_table_was_asked(
    catalog: Seq<Seq<char>>,
    sys_id: Seq<char>,
    rounds: Seq<IdSearch>,
    before: Sessions<SearchState>,
    after: Sessions<SearchState>,
    cursor: Option<Seq<char>>,
    now: u64,
    token: Seq<char>,
    end: SearchEnd,
)
    requires
        is_catalog(catalog),
        search_rounds(catalog, sys_id, rounds),
        parked(before, after, cursor, rounds.last().state, now, token, Ok(end)),
    ensures
        end matches SearchEnd::NotFound { scanned_tables, .. } ==> tables_asked(rounds)
            == every_table(catalog) && scanned_tables == capped_sum(
            0,
            every_table(catalog).len() as int,
        ),
        forall|t: Seq<char>|
            #![trigger tables_asked(rounds).contains(t)]
            (priority().contains(t) || catalog.contains(t)) && !tables_asked(rounds).contains(t)
                ==> end is Searching,
{
    let read = lemma_accounted(catalog, sys_id, rounds);
    let state = rounds.last().state@;
    let asked = tables_asked(rounds);
    if state.exhausted() {
        assert(catalog.subrange(0, read) =~= catalog);
        assert(asked + state.pending =~= asked);
        assert forall|t: Seq<char>|
            #![trigger asked.contains(t)]
            priority().contains(t) || catalog.contains(t) implies asked.contains(t) by {
            let others = catalog.filter(not_listed(priority()));
            if priority().contains(t) {
                let k = choose|k: int| 0 <= k < priority().len() && priority()[k] == t;
                assert(every_table(catalog)[k] == t);
            } else {
                crate::listing::lemma_filter_complete(catalog, not_listed(priority()), t);
                let k = choose|k: int| 0 <= k < others.len() && others[k] == t;
                assert(every_table(catalog)[priority().len() + k] == t);
            }
        }
    }
}

/// A call asks no more tables than its budget: between its first round and any
/// later one of it, at most so many were asked.
pub proof fn calls_ask_within_their_budget(
    catalog: Seq<Seq<char>>,
    state: SearchView,
    rounds: Seq<IdSearch>,
)
    requires
        rounds.len() > 0,
        goes_on(state, PROBE_BUDGET as int, rounds[0]),
        forall|k: int|
            0 <= k < rounds.len() - 1 ==> !((#[trigger] rounds[k]).stage is Spent) && searched_on(
                catalog,
                rounds[k],
                rounds[k + 1],
            ),
    ensures
        tables_asked(rounds).len() + rounds.last().remaining <= PROBE_BUDGET,
        rounds.last().state@.scanned == capped_sum(
            state.scanned,
            tables_asked(rounds).len() as int,
        ),
        rounds.last().stage is Catalog ==> rounds.last().remaining > 0,
    decreases rounds.len(),
{
    let front = rounds.drop_last();
    let last = rounds.last();
    if rounds.len() == 1 {
        assert(front =~= Seq::empty());
        assert(tables_asked(front) =~= Seq::empty());
    } else {
        assert forall|k: int| 0 <= k < front.len() - 1 implies !((#[trigger] front[k]).stage is Spent)
            && searched_on(catalog, front[k], front[k + 1]) by {
            assert(!(rounds[k].stage is Spent));
        }
        calls_ask_within_their_budget(catalog, state, front);
        let before = rounds[rounds.len() - 2];
        assert(front.last() == before);
        assert(searched_on(catalog, before, rounds[rounds.len() - 2 + 1]));
    }
}

/// A search that goes on in another call keeps the cursor it was taken up with,
/// and that cursor takes it up where it was left, for as long as it is kept.
pub proof fn searches_go_on_where_they_were_left(
    before: Sessions<SearchState>,
    after: Sessions<SearchState>,
    cursor: Option<Seq<char>>,
    state: SearchState,
    now: u64,
    token: Seq<char>,
    given: String,
    scanned_tables: usize,
    unreadable_tables: usize,
    reopened: Sessions<SearchState>,
    later: u64,
    r: Result<SearchState, RecordResolveError>,
)
    requires
        after.well_formed(),
        parked(
            before,
            after,
            cursor,
            state,
            now,
            token,
            Ok(SearchEnd::Searching { cursor: given, scanned_tables, unreadable_tables }),
        ),
        search_opened(after, reopened, Some(given@), state.sys_id@, later, r),
        is_live(now, later),
    ensures
        cursor is Some ==> given@ == cursor->0,
        scanned_tables == state.scanned,
        unreadable_tables == state.unreadable,
        r is Ok && r->Ok_0@ == state@,
{
    let key = match cursor {
        Some(c) => c,
        None => token,
    };
    let name = choose|name: String| name@ == key && after.entries@ == #[trigger] crate::session::placed(
        before,
        crate::session::Session { token: name, touched: now, state },
    );
    let all = after.entries@;
    let p = match before.position(key) {
        Some(i) => i,
        None => before.entries@.len() as int,
    };
    assert(all[p].token@ == key && all[p].state == state && all[p].touched == now);
    let live = all.filter(live_entry(later));
    assert(all.contains(all[p]));
    crate::listing::lemma_filter_complete(all, live_entry(later), all[p]);
    crate::session::lemma_filter_keeps_distinct(all, live_entry(later));
    let m = choose|m: int| 0 <= m < live.len() && live[m] == all[p];
    assert(tokens(live)[m] == key);
    assert(tokens(live).contains(key));
    let q = tokens(live).index_of(key);
    assert(tokens(live)[q] == tokens(live)[m]);
}

} // verus!
