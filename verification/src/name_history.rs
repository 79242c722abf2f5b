//! What holds of a search by name over all of its rounds and calls.
use vstd::prelude::*;

use crate::name_search::{after_round, is_next_stage, NameCall, NameStage};
use crate::record_error::RecordResolveError;
use crate::record_name_resolver::{
    match_views, name_opened, name_parked, seen_after, unseen, NameMatchView,
    NameMatches, NameSearch, NameSearchView, TableOutcome, FIRST_TABLES, TABLE_BUDGET,
};
use crate::row::PageView;
use crate::search_history::{
    is_catalog, is_catalog_page, lemma_page_read, read_up_to, tables_of,
};
use crate::session::{is_live, live_entry, placed, tokens, Session, Sessions};
use crate::text::names_of;

verus! {

/// The sys_ids of candidates.
pub open spec fn ids_of(found: Seq<NameMatchView>) -> Seq<Seq<char>> {
    found.map_values(|m: NameMatchView| m.sys_id)
}

/// One step of a search by name: a page of the catalog was read, the search of a
/// table went on or ended, or a further call took the search up.
pub open spec fn name_went_on(catalog: Seq<Seq<char>>, before: NameCall, after: NameCall) -> bool {
    match before.stage {
        NameStage::Catalog => exists|page: PageView|
            #![trigger is_catalog_page(catalog, before.search@.catalog_after, page)]
            {
                let next = before.search@.after_catalog(Ok(page))->Ok_0;
                let rounds = if next.pending.len() == 0 {
                    before.rounds - 1
                } else {
                    before.rounds as int
                };
                &&& is_catalog_page(catalog, before.search@.catalog_after, page)
                &&& before.search@.after_catalog(Ok(page)) is Ok
                &&& after.search@ == next
                &&& after.rounds == rounds
                &&& after.records == before.records
                &&& is_next_stage(next, rounds, before.records@.len() as int, after.stage)
            },
        NameStage::Table(_) => (after.stage is Table && after == NameCall {
            stage: after.stage,
            ..before
        }) || exists|outcome: TableOutcome| #[trigger] after_round(before, outcome, Ok(after)),
        NameStage::End => {
            &&& !before.search@.exhausted()
            &&& after.search@ == before.search@
            &&& after.rounds == TABLE_BUDGET
            &&& after.records@.len() == 0
            &&& is_next_stage(after.search@, TABLE_BUDGET as int, 0, after.stage)
        },
    }
}

/// The steps of a search by name from its beginning.
pub open spec fn name_steps(
    catalog: Seq<Seq<char>>,
    name: Seq<char>,
    table: Option<Seq<char>>,
    steps: Seq<NameCall>,
) -> bool {
    &&& steps.len() > 0
    &&& steps[0].search@ == NameSearchView::fresh(name, table)
    &&& steps[0].rounds == TABLE_BUDGET
    &&& steps[0].records@.len() == 0
    &&& is_next_stage(steps[0].search@, TABLE_BUDGET as int, 0, steps[0].stage)
    &&& forall|k: int| 0 <= k < steps.len() ==> (#[trigger] steps[k]).well_formed()
    &&& forall|k: int|
        0 <= k < steps.len() - 1 ==> name_went_on(catalog, #[trigger] steps[k], steps[k + 1])
}

/// The sys_ids that the calls answered with, one call behind the other.
pub open spec fn answered(steps: Seq<NameCall>) -> Seq<Seq<char>>
    decreases steps.len(),
{
    if steps.len() == 0 {
        Seq::empty()
    } else if steps.last().stage is End {
        answered(steps.drop_last()) + ids_of(match_views(steps.last().records@))
    } else {
        answered(steps.drop_last())
    }
}

/// The tables that were searched to their end, or could not be.
pub open spec fn tables_done(steps: Seq<NameCall>) -> Seq<Seq<char>>
    decreases steps.len(),
{
    if steps.len() <= 1 {
        Seq::empty()
    } else {
        let before = steps[steps.len() - 2];
        let done = tables_done(steps.drop_last());
        if before.stage is Table && steps.last().search@.pending.len()
            < before.search@.pending.len() {
            done.push(before.search@.pending[0])
        } else {
            done
        }
    }
}

/// The tables that are searched: the one that was asked for, or all of them.
pub open spec fn scope_of(catalog: Seq<Seq<char>>, table: Option<Seq<char>>) -> Seq<Seq<char>> {
    match table {
        Some(t) => seq![t],
        None => tables_of(names_of(FIRST_TABLES@), catalog),
    }
}

/// The tables that were done and those that wait are the ones in scope, as far as
/// the catalog was read.
pub open spec fn name_accounted(
    catalog: Seq<Seq<char>>,
    table: Option<Seq<char>>,
    s: NameSearchView,
    done: Seq<Seq<char>>,
    read: int,
) -> bool {
    &&& s.table == table
    &&& 0 <= read <= catalog.len()
    &&& done + s.pending == scope_of(catalog.subrange(0, read), table)
    &&& s.catalog_after == read_up_to(catalog, read)
    &&& table is None && s.catalog_complete ==> read == catalog.len()
    &&& table is Some ==> s.catalog_complete
}

/// What is seen after some candidates is what was seen before, and then those
/// that are new.
proof fn lemma_seen_grows(seen: Seq<Seq<char>>, found: Seq<NameMatchView>)
    ensures
        seen_after(seen, found) == seen + ids_of(unseen(seen, found)),
    decreases found.len(),
{
    if found.len() > 0 {
        let front = found.drop_last();
        lemma_seen_grows(seen, front);
        if !seen_after(seen, front).contains(found.last().sys_id) {
            assert(ids_of(unseen(seen, found)) =~= ids_of(unseen(seen, front)).push(
                found.last().sys_id,
            ));
        }
    }
    assert(seen_after(seen, found) =~= seen + ids_of(unseen(seen, found)));
}

/// The account at every step.
proof fn lemma_name_accounted(
    catalog: Seq<Seq<char>>,
    name: Seq<char>,
    table: Option<Seq<char>>,
    steps: Seq<NameCall>,
) -> (read: int)
    requires
        is_catalog(catalog),
        name_steps(catalog, name, table, steps),
    ensures
        name_accounted(catalog, table, steps.last().search@, tables_done(steps), read),
        steps.last().search@.seen == (if steps.last().stage is End {
            answered(steps)
        } else {
            answered(steps) + ids_of(match_views(steps.last().records@))
        }),
    decreases steps.len(),
{
    let last = steps.last();
    let front = steps.drop_last();
    let none: Seq<Seq<char>> = Seq::empty();
    if steps.len() == 1 {
        assert(front =~= Seq::empty());
        assert(answered(front) =~= none);
        assert(ids_of(match_views(last.records@)) =~= none);
        assert(none + none =~= none);
        assert(catalog.subrange(0, 0) =~= none);
        reveal(Seq::filter);
        assert(tables_done(steps) =~= none);
        assert(none + last.search@.pending =~= scope_of(catalog.subrange(0, 0), table));
        0
    } else {
        assert forall|k: int| 0 <= k < front.len() implies (#[trigger] front[k]).well_formed() by {
            assert(steps[k].well_formed());
        }
        assert forall|k: int| 0 <= k < front.len() - 1 implies name_went_on(
            catalog,
            #[trigger] front[k],
            front[k + 1],
        ) by {
            assert(name_went_on(catalog, steps[k], steps[k + 1]));
        }
        let read = lemma_name_accounted(catalog, name, table, front);
        let before = steps[steps.len() - 2];
        assert(front.last() == before);
        assert(before.well_formed());
        assert(name_went_on(catalog, before, steps[steps.len() - 2 + 1]));
        let done = tables_done(front);
        match before.stage {
            NameStage::Catalog => {
                let page = choose|page: PageView|
                    #![trigger is_catalog_page(catalog, before.search@.catalog_after, page)]
                    {
                        let next = before.search@.after_catalog(Ok(page))->Ok_0;
                        let rounds = if next.pending.len() == 0 {
                            before.rounds - 1
                        } else {
                            before.rounds as int
                        };
                        &&& is_catalog_page(catalog, before.search@.catalog_after, page)
                        &&& before.search@.after_catalog(Ok(page)) is Ok
                        &&& last.search@ == next
                        &&& last.rounds == rounds
                        &&& last.records == before.records
                        &&& is_next_stage(next, rounds, before.records@.len() as int, last.stage)
                    };
                let first = names_of(FIRST_TABLES@);
                let now_read = lemma_page_read(catalog, first, read, page);
                assert(done + last.search@.pending =~= (done + before.search@.pending)
                    + crate::catalog::new_names(page.rows, first));
                assert(tables_done(steps) =~= done);
                now_read
            },
            NameStage::Table(_) => {
                if last.stage is Table && last == (NameCall { stage: last.stage, ..before }) {
                    assert(tables_done(steps) =~= done);
                } else {
                    let outcome = choose|outcome: TableOutcome| #[trigger]
                        after_round(before, outcome, Ok(last));
                    let s = before.search@;
                    assert(done.push(s.pending[0]) + s.pending.subrange(1, s.pending.len() as int)
                        =~= done + s.pending);
                    let held = match_views(before.records@);
                    if let TableOutcome::Found { matches, .. } = outcome {
                        let found = match_views(matches@);
                        lemma_seen_grows(s.seen, found);
                        let more = unseen(s.seen, found);
                        assert(ids_of(held + more) =~= ids_of(held) + ids_of(more));
                        assert(answered(front) + (ids_of(held) + ids_of(more)) =~= (answered(front)
                            + ids_of(held)) + ids_of(more));
                    } else {
                        assert(held + Seq::<NameMatchView>::empty() =~= held);
                    }
                }
                read
            },
            NameStage::End => {
                assert(ids_of(match_views(last.records@)) =~= none);
                assert(answered(front) + none =~= answered(front));
                assert(tables_done(steps) =~= done);
                read
            },
        }
    }
}

/// Over the pages of a search by name, each called with the cursor of the one
/// before it: no record comes twice, and every page counts those that came so
/// far. A page without a cursor is the last one: every table in scope was
/// searched; and a search is complete where, besides, every table could be read.
pub proof fn name_pages_hold_each_record_once(
    catalog: Seq<Seq<char>>,
    name: Seq<char>,
    table: Option<Seq<char>>,
    steps: Seq<NameCall>,
    before: Sessions<NameSearch>,
    after: Sessions<NameSearch>,
    now: u64,
    token: String,
    page: NameMatches,
)
    requires
        is_catalog(catalog),
        name_steps(catalog, name, table, steps),
        steps.last().stage is End,
        name_parked(
            before,
            after,
            steps.last().search,
            steps.last().records,
            now,
            token,
            Ok(page),
        ),
    ensures
        answered(steps).no_duplicates(),
        page.match_count == answered(steps).len(),
        page.records == steps.last().records,
        page.complete == (page.cursor is None && page.unreadable_tables == 0),
        page.cursor is None ==> tables_done(steps) == scope_of(catalog, table),
{
    let read = lemma_name_accounted(catalog, name, table, steps);
    let s = steps.last().search@;
    assert(steps[steps.len() - 1].well_formed());
    if s.exhausted() {
        assert(tables_done(steps) + s.pending =~= tables_done(steps));
        if table is None {
            assert(catalog.subrange(0, read) =~= catalog);
        }
    }
}

/// The cursor of a page takes the search up where the page left it, for as long as
/// it is kept.
pub proof fn name_searches_go_on_where_they_were_left(
    before: Sessions<NameSearch>,
    after: Sessions<NameSearch>,
    state: NameSearch,
    page: NameMatches,
    now: u64,
    token: String,
    reopened: Sessions<NameSearch>,
    later: u64,
    r: Result<NameSearch, RecordResolveError>,
)
    requires
        after.well_formed(),
        name_parked(before, after, state, page.records, now, token, Ok(page)),
        page.cursor is Some,
        name_opened(
            after,
            reopened,
            Some(page.cursor->0@),
            state@.name,
            state@.table,
            later,
            r,
        ),
        is_live(now, later),
    ensures
        r is Ok && r->Ok_0@ == state@,
{
    let live = before.entries@.filter(live_entry(now));
    let fresh = Session { token, touched: now, state };
    let room = choose|room: Sessions<NameSearch>|
        room.well_formed() && room.entries@ == live && after.entries@ == #[trigger] placed(
            room,
            fresh,
        );
    let all = after.entries@;
    let p = match room.position(token@) {
        Some(i) => i,
        None => live.len() as int,
    };
    assert(all[p] == fresh);
    let kept = all.filter(live_entry(later));
    assert(all.contains(all[p]));
    crate::listing::lemma_filter_complete(all, live_entry(later), all[p]);
    crate::session::lemma_filter_keeps_distinct(all, live_entry(later));
    let m = choose|m: int| 0 <= m < kept.len() && kept[m] == all[p];
    assert(tokens(kept)[m] == token@);
    assert(tokens(kept).contains(token@));
    let q = tokens(kept).index_of(token@);
    assert(tokens(kept)[q] == tokens(kept)[m]);
}

} // verus!
