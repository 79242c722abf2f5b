//! Laws of the assignment groups of a user, of the choices of a field, and of reading a
//! queue from the request to the answer.
use vstd::prelude::*;

use crate::choices::{meant, with_label, with_value, FieldChoiceView};
use crate::groups::{
    group_before, group_of_row, groups_in_order, groups_of, has_group, membership_query_of,
    GroupView,
};
use crate::incident_queue::{
    all_sys_ids, known_ids, queue_plan_of, queue_refusal, stale_cutoff_of, IncidentAssignmentGroup,
    QueueLimits, ResolvedIncidentAssignee, Scan,
};
use crate::listing::lemma_filter_keeps;
use crate::query::{DisplayMode, Query};
use crate::queue_call::{
    after_departures, after_groups, after_page, after_standings, after_state, are_parents_of,
    begins, needs, request_of, scan_begins, QueueAsk, QueueCall, QueueFault, QueueNeed,
};
use crate::queue_answer::{QueueRequest, QueueStanding};
use crate::queue_items::{has_left, QueueItem};
use crate::row::{row_views, Row, RowView};
use crate::selection::{group_selection, selects, Held};
use crate::sla::TaskSlaParentRef;
use crate::tables::sys_id_of;
use crate::text::{lower, same_ignoring_case, text_less, text_of, texts, trim};
use crate::timestamp::timestamp_text;
use crate::work::{is_open, open_rows};

verus! {

/// The memberships of a user are asked for by the user alone, with the name of each
/// group and whether it is active, five hundred at a time.
pub proof fn memberships_are_asked_for_by_user(user: Seq<char>, held: Held)
    ensures
        selects(membership_query_of(user), held) <==> held("user"@) == user,
        membership_query_of(user).table == "sys_user_grmember"@,
        membership_query_of(user).fields == seq!["sys_id"@, "group"@],
        membership_query_of(user).dot_walk == seq!["group.name"@, "group.active"@],
        membership_query_of(user).limit == Some(500u32),
        membership_query_of(user).display == DisplayMode::Both,
{
    broadcast use group_selection;

    assert(membership_query_of(user).fields =~= seq!["sys_id"@, "group"@]);
    assert(membership_query_of(user).dot_walk =~= seq!["group.name"@, "group.active"@]);
}

/// A membership counts where its group has a readable id and does not say that it is
/// not active; the group bears the name that is shown, or its id where none is.
pub proof fn memberships_of_active_groups_count(row: RowView)
    ensures
        ({
            let shown = row.shown("group.active"@);
            let says_no = shown is Some && (trim(shown->0) == "false"@ || trim(shown->0) == "0"@);
            let raw = if row.raw("group"@) is Some {
                row.raw("group"@)
            } else {
                row.shown("group"@)
            };
            let named = if row.shown("group.name"@) is Some {
                row.shown("group.name"@)
            } else {
                row.display("group"@)
            };
            &&& group_of_row(row) is Some <==> !says_no && raw is Some && sys_id_of(raw->0) is Some
            &&& group_of_row(row) is Some ==> Some(group_of_row(row)->0.sys_id) == sys_id_of(raw->0)
            &&& group_of_row(row) is Some && named is Some && trim(named->0).len() > 0
                ==> group_of_row(row)->0.name == trim(named->0)
            &&& group_of_row(row) is Some && (named is None || trim(named->0).len() == 0)
                ==> group_of_row(row)->0.name == group_of_row(row)->0.sys_id
        }),
{
}

/// A group is listed where a membership of it counts, as the first of its memberships
/// that counts gives it.
pub proof fn groups_are_those_of_the_memberships(rows: Seq<RowView>)
    ensures
        forall|g: GroupView| #[trigger]
            groups_of(rows).contains(g) <==> exists|i: int|
                {
                    &&& 0 <= i < rows.len()
                    &&& group_of_row(#[trigger] rows[i]) == Some(g)
                    &&& forall|k: int|
                        0 <= k < i && group_of_row(#[trigger] rows[k]) is Some ==> group_of_row(
                            rows[k],
                        )->0.sys_id != g.sys_id
                },
        forall|id: Seq<char>| #[trigger]
            has_group(groups_of(rows), id) <==> exists|i: int|
                0 <= i < rows.len() && group_of_row(#[trigger] rows[i]) is Some && group_of_row(
                    rows[i],
                )->0.sys_id == id,
    decreases rows.len(),
{
    if rows.len() > 0 {
        let front = rows.drop_last();
        let n = rows.len() - 1;
        let before = groups_of(front);
        let after = groups_of(rows);
        groups_are_those_of_the_memberships(front);
        assert forall|i: int| 0 <= i < n implies #[trigger] rows[i] == front[i] by {
        }
        assert forall|g: GroupView| #[trigger] after.contains(g) <==> exists|i: int|
            {
                &&& 0 <= i < rows.len()
                &&& group_of_row(#[trigger] rows[i]) == Some(g)
                &&& forall|k: int|
                    0 <= k < i && group_of_row(#[trigger] rows[k]) is Some ==> group_of_row(
                        rows[k],
                    )->0.sys_id != g.sys_id
            } by {
            if after.contains(g) {
                if before.contains(g) {
                    let i = choose|i: int|
                        {
                            &&& 0 <= i < front.len()
                            &&& group_of_row(#[trigger] front[i]) == Some(g)
                            &&& forall|k: int|
                                0 <= k < i && group_of_row(#[trigger] front[k]) is Some
                                    ==> group_of_row(front[k])->0.sys_id != g.sys_id
                        };
                    assert(group_of_row(rows[i]) == Some(g));
                    assert forall|k: int|
                        0 <= k < i && group_of_row(
                            #[trigger] rows[k],
                        ) is Some implies group_of_row(rows[k])->0.sys_id != g.sys_id by {
                        assert(front[k] == rows[k]);
                    }
                } else {
                    let at = after.index_of(g);
                    if at < before.len() {
                        assert(before[at] == g);
                    }
                    assert(group_of_row(rows[n]) == Some(g));
                    assert(!has_group(before, g.sys_id));
                    assert forall|k: int|
                        0 <= k < n && group_of_row(
                            #[trigger] rows[k],
                        ) is Some implies group_of_row(rows[k])->0.sys_id != g.sys_id by {
                        assert(group_of_row(front[k]) is Some);
                    }
                }
            }
            if exists|i: int|
                {
                    &&& 0 <= i < rows.len()
                    &&& group_of_row(#[trigger] rows[i]) == Some(g)
                    &&& forall|k: int|
                        0 <= k < i && group_of_row(#[trigger] rows[k]) is Some ==> group_of_row(
                            rows[k],
                        )->0.sys_id != g.sys_id
                } {
                let i = choose|i: int|
                    {
                        &&& 0 <= i < rows.len()
                        &&& group_of_row(#[trigger] rows[i]) == Some(g)
                        &&& forall|k: int|
                            0 <= k < i && group_of_row(#[trigger] rows[k]) is Some ==> group_of_row(
                                rows[k],
                            )->0.sys_id != g.sys_id
                    };
                if i < n {
                    assert(group_of_row(front[i]) == Some(g));
                    assert forall|k: int|
                        0 <= k < i && group_of_row(
                            #[trigger] front[k],
                        ) is Some implies group_of_row(front[k])->0.sys_id != g.sys_id by {
                        assert(rows[k] == front[k]);
                    }
                    assert(before.contains(g));
                    let at = before.index_of(g);
                    assert(before[at] == g);
                    assert(after[at] == g);
                } else {
                    if has_group(before, g.sys_id) {
                        let k = choose|k: int|
                            0 <= k < front.len() && group_of_row(#[trigger] front[k]) is Some
                                && group_of_row(front[k])->0.sys_id == g.sys_id;
                        assert(rows[k] == front[k]);
                    }
                    assert(after[before.len() as int] == g);
                }
            }
        }
        assert forall|id: Seq<char>| #[trigger] has_group(after, id) <==> exists|i: int|
            0 <= i < rows.len() && group_of_row(#[trigger] rows[i]) is Some && group_of_row(
                rows[i],
            )->0.sys_id == id by {
            if has_group(after, id) {
                let at = choose|at: int| 0 <= at < after.len() && (#[trigger] after[at]).sys_id == id;
                if at < before.len() {
                    assert(before[at].sys_id == id);
                    assert(has_group(before, id));
                    let k = choose|k: int|
                        0 <= k < front.len() && group_of_row(#[trigger] front[k]) is Some
                            && group_of_row(front[k])->0.sys_id == id;
                    assert(rows[k] == front[k]);
                } else {
                    assert(group_of_row(rows[n]) is Some);
                }
            }
            if exists|i: int|
                0 <= i < rows.len() && group_of_row(#[trigger] rows[i]) is Some && group_of_row(
                    rows[i],
                )->0.sys_id == id {
                let i = choose|i: int|
                    0 <= i < rows.len() && group_of_row(#[trigger] rows[i]) is Some && group_of_row(
                        rows[i],
                    )->0.sys_id == id;
                if i < n {
                    assert(group_of_row(front[i]) is Some);
                    assert(has_group(before, id));
                    let at = choose|at: int|
                        0 <= at < before.len() && (#[trigger] before[at]).sys_id == id;
                    assert(after[at].sys_id == id);
                } else if has_group(before, id) {
                    let at = choose|at: int|
                        0 <= at < before.len() && (#[trigger] before[at]).sys_id == id;
                    assert(after[at].sys_id == id);
                } else {
                    assert(after[before.len() as int].sys_id == id);
                }
            }
        }
    }
}

/// Groups come in the order of their names in small letters, those of the same name in
/// the order of their ids.
pub proof fn groups_come_by_name_and_id(groups: Seq<GroupView>, i: int, j: int)
    requires
        groups_in_order(groups),
        0 <= i < j < groups.len(),
    ensures
        !text_less(lower(groups[j].name), lower(groups[i].name)),
        lower(groups[i].name) == lower(groups[j].name) ==> !text_less(
            groups[j].sys_id,
            groups[i].sys_id,
        ),
{
    assert(!group_before(groups[j], groups[i]));
}

/// A selector means the choices with its value; where there are none, those with its
/// label in any case. It never means others.
pub proof fn selectors_mean_values_before_labels(
    choices: Seq<FieldChoiceView>,
    selector: Seq<char>,
    c: FieldChoiceView,
)
    ensures
        choices.contains(c) && c.value == selector ==> meant(choices, selector).contains(c),
        meant(choices, selector).contains(c) ==> choices.contains(c) && (c.value == selector
            || lower(c.label) == lower(selector)),
        (exists|i: int| 0 <= i < choices.len() && (#[trigger] choices[i]).value == selector) ==> (
        meant(choices, selector).contains(c) <==> choices.contains(c) && c.value == selector),
        (forall|i: int| 0 <= i < choices.len() ==> (#[trigger] choices[i]).value != selector) ==> (
        meant(choices, selector).contains(c) <==> choices.contains(c) && lower(c.label) == lower(
            selector,
        )),
{
    let raw = choices.filter(with_value(selector));
    lemma_filter_keeps(choices, with_value(selector));
    lemma_filter_keeps(choices, with_label(selector));
    crate::text_laws::case_does_not_count(c.label, selector);
    if raw.len() > 0 {
        assert(raw.contains(raw[0]));
        let i = choices.index_of(raw[0]);
        assert(choices[i].value == selector);
    }
    if exists|i: int| 0 <= i < choices.len() && (#[trigger] choices[i]).value == selector {
        let i = choose|i: int| 0 <= i < choices.len() && (#[trigger] choices[i]).value == selector;
        assert(choices.contains(choices[i]));
        assert(raw.contains(choices[i]));
    }
    if choices.contains(c) && c.value == selector {
        assert(raw.contains(c));
    }
}

/// A call begins where its request is accepted, every known incident is named by an id
/// and the clock shows a date; it keeps what was asked, and reads the groups first.
pub proof fn calls_keep_what_was_asked(
    ask: QueueAsk,
    limits: QueueLimits,
    terminal: Vec<String>,
    now: i64,
    r: Result<QueueCall, QueueFault>,
)
    requires
        begins(ask, limits, terminal, now, r),
    ensures
        r is Ok <==> {
            &&& queue_refusal(ask.filters, limits) is None
            &&& forall|i: int|
                0 <= i < ask.filters.known_sys_ids@.len() ==> sys_id_of(
                    (#[trigger] ask.filters.known_sys_ids@[i])@,
                ) is Some
            &&& timestamp_text(now) is Some
            &&& stale_cutoff_of(text_of(ask.filters.stale_before), now) is Some
        },
        r is Ok ==> {
            let call = r->Ok_0;
            &&& call.ask == ask
            &&& call.terminal == terminal
            &&& call.stage is Groups
            &&& ask.filters.limit is Some ==> call.bounds.limit == ask.filters.limit->0
            &&& ask.filters.limit is None ==> call.bounds.limit == limits.default_limit
            &&& ask.filters.offset is Some ==> call.bounds.offset == ask.filters.offset->0
            &&& ask.filters.offset is None ==> call.bounds.offset == 0
            &&& ask.filters.scan_limit is Some ==> call.bounds.scan_limit
                == ask.filters.scan_limit->0
            &&& ask.filters.scan_limit is None ==> call.bounds.scan_limit
                == limits.default_scan_limit
            &&& texts(call.bounds.known_sys_ids@) == known_ids(texts(ask.filters.known_sys_ids@))
            &&& Some(call.watermark@) == timestamp_text(now)
            &&& Some(call.stale_before@) == stale_cutoff_of(
                text_of(ask.filters.stale_before),
                now,
            )
        },
{
    let ids = texts(ask.filters.known_sys_ids@);
    if all_sys_ids(ids) {
        assert forall|i: int| 0 <= i < ask.filters.known_sys_ids@.len() implies sys_id_of(
            (#[trigger] ask.filters.known_sys_ids@[i])@,
        ) is Some by {
            assert(sys_id_of(ids[i]) is Some);
        }
    } else {
        let i = choose|i: int| 0 <= i < ids.len() && !(sys_id_of(#[trigger] ids[i]) is Some);
        assert(sys_id_of(ask.filters.known_sys_ids@[i]@) is None);
    }
}

/// What a call needs next is told by its stage.
pub proof fn calls_need_what_their_stage_lacks(call: QueueCall, r: QueueNeed)
    requires
        needs(call, r),
    ensures
        r is Memberships <==> call.stage is Groups,
        r is Choices <==> call.stage is State,
        r is Person <==> call.stage is Person,
        r is Page <==> call.stage is Scan,
        r is Standings <==> call.stage is Standings,
        r is Known <==> call.stage is Departures,
        r is Nothing <==> call.stage is Done,
        call.stage is Person ==> text_of(r->name) == text_of(call.stage->name),
{
}

/// The standings are asked for of the incidents that were kept, one for one.
pub proof fn standings_are_asked_for_of_incidents(
    parents: Seq<TaskSlaParentRef>,
    rows: Seq<Row>,
    i: int,
)
    requires
        are_parents_of(parents, rows),
    ensures
        parents.len() == rows.len(),
        0 <= i < rows.len() ==> {
            &&& parents[i].record_sys_id@ == rows[i].sys_id@
            &&& parents[i].record_table@ == "incident"@
            &&& rows[i]@.shown("number"@) is Some ==> parents[i].record_number@ == rows[i]@.shown(
                "number"@,
            )->0
        },
{
    if 0 <= i < rows.len() {
        assert(parents[i].record_sys_id@ == rows[i].sys_id@);
    }
}

/// Once the groups are known, the call goes on with the one group that is meant: to the
/// choices where a state is asked for; where none is meant, or several are, it ends.
pub proof fn calls_go_on_with_the_one_group(
    call: QueueCall,
    groups: Seq<IncidentAssignmentGroup>,
    r: Result<QueueCall, QueueFault>,
)
    requires
        after_groups(call, groups, r),
    ensures
        r is Ok <==> groups.filter(crate::incident_queue::selects(call.ask.filters.group@)).len()
            == 1,
        r is Ok && call.ask.state is Some ==> {
            &&& r->Ok_0.stage is State
            &&& groups.contains(r->Ok_0.stage->State_group)
            &&& crate::incident_queue::selects(call.ask.filters.group@)(
                r->Ok_0.stage->State_group,
            )
        },
        r is Ok && call.ask.state is None ==> r->Ok_0.stage is Scan || r->Ok_0.stage is Person,
        r is Ok ==> r->Ok_0.ask == call.ask && r->Ok_0.bounds == call.bounds && r->Ok_0.terminal
            == call.terminal && r->Ok_0.watermark == call.watermark && r->Ok_0.stale_before
            == call.stale_before,
{
    let keep = crate::incident_queue::selects(call.ask.filters.group@);
    let hits = groups.filter(keep);
    lemma_filter_keeps(groups, keep);
    if hits.len() == 1 {
        assert(hits.contains(hits[0]));
    }
}

/// Whose incidents are scanned: anyone's where nobody is named, those without an
/// assignee, those of an id, or else those of a person who is looked up first: the one
/// who asks, or the one who is named.
pub proof fn incidents_are_scanned_of_whom_was_named(
    call: QueueCall,
    group: IncidentAssignmentGroup,
    state: Option<Seq<char>>,
    next: QueueCall,
    held: Held,
)
    requires
        after_state(call, group, state, next),
        call.ask.assigned_to is Some,
    ensures
        ({
            let t = trim(call.ask.assigned_to->0@);
            let unassigned = lower(t) == lower("unassigned"@);
            let me = lower(t) == lower("me"@);
            &&& next.stage is Scan <==> t.len() == 0 || unassigned || (!me && sys_id_of(
                t,
            ) is Some)
            &&& next.stage is Person <==> !(next.stage is Scan)
            &&& next.stage is Person && me ==> next.stage->name is None
            &&& next.stage is Person && !me ==> text_of(next.stage->name) == Some(t)
            &&& next.stage is Person ==> next.stage->Person_group == group && text_of(
                next.stage->Person_state,
            ) == state
            &&& next.stage is Scan ==> next.stage->Scan_group == group
            &&& next.stage is Scan && t.len() > 0 && !unassigned && selects(
                next.stage->Scan_query@,
                held,
            ) ==> Some(held("assigned_to"@)) == sys_id_of(t)
            &&& next.stage is Scan && t.len() > 0 && unassigned && selects(
                next.stage->Scan_query@,
                held,
            ) ==> held("assigned_to"@).len() == 0
        }),
{
    let t = trim(call.ask.assigned_to->0@);
    crate::text_laws::case_does_not_count(t, "unassigned"@);
    crate::text_laws::case_does_not_count(t, "me"@);
    if t.len() > 0 {
        if same_ignoring_case(t, "unassigned"@) {
            crate::queue_laws::queue_queries_ask_for_what_was_given(
                group.sys_id@,
                call.ask.filters,
                state,
                Some(ResolvedIncidentAssignee::Unassigned),
                call.stale_before@,
                held,
            );
        } else if !same_ignoring_case(t, "me"@) && sys_id_of(t) is Some {
            let user = choose|user: String|
                user@ == sys_id_of(t)->0 && #[trigger] scan_begins(
                    call,
                    group,
                    state,
                    Some(ResolvedIncidentAssignee::User(user)),
                    next,
                );
            crate::queue_laws::queue_queries_ask_for_what_was_given(
                group.sys_id@,
                call.ask.filters,
                state,
                Some(ResolvedIncidentAssignee::User(user)),
                call.stale_before@,
                held,
            );
        }
    }
}

/// A scan asks for the incidents of the group, of the state and of the assignee that
/// were resolved, and begins with nothing.
pub proof fn scans_ask_for_the_group(
    call: QueueCall,
    group: IncidentAssignmentGroup,
    state: Option<Seq<char>>,
    assignee: Option<ResolvedIncidentAssignee>,
    next: QueueCall,
)
    requires
        scan_begins(call, group, state, assignee, next),
    ensures
        next.stage is Scan,
        next.stage->Scan_group == group,
        next.stage->Scan_query@ == queue_plan_of(
            group.sys_id@,
            call.ask.filters,
            state,
            assignee,
            call.stale_before@,
        ),
        next.stage->scan.rows@.len() == 0,
        !next.stage->scan.complete,
        !next.stage->scan.stopped,
        next.ask == call.ask,
        next.bounds == call.bounds,
        next.terminal == call.terminal,
        next.watermark == call.watermark,
        next.stale_before == call.stale_before,
{
}

/// A page adds its rows behind those that are there, as far as the limit allows. The
/// scan goes on until a page was the last, there is none, or the limit is reached; then
/// the open incidents are kept, and it is complete only where nothing was left out.
pub proof fn scans_add_page_by_page(
    call: QueueCall,
    group: IncidentAssignmentGroup,
    query: Query,
    before: Scan,
    page: Option<Seq<Row>>,
    last: bool,
    next: QueueCall,
)
    requires
        after_page(call, group, query, before, page, last, next),
        before.rows@.len() <= call.bounds.scan_limit,
    ensures
        ({
            let limit = call.bounds.scan_limit as int;
            let room = limit - before.rows@.len();
            &&& next.stage is Scan <==> page is Some && !last && page->0.len() < room
            &&& next.stage is Standings <==> !(next.stage is Scan)
            &&& next.stage is Scan ==> {
                &&& next.stage->Scan_group == group
                &&& next.stage->Scan_query == query
                &&& next.stage->scan.rows@ == before.rows@ + page->0
            }
            &&& next.stage is Standings ==> {
                &&& next.stage->Standings_group == group
                &&& page is None ==> next.stage->Standings_rows_scanned == before.rows@.len()
                    && next.stage->Standings_scan_complete
                &&& page is Some && page->0.len() <= room ==> next.stage->Standings_rows_scanned
                    == before.rows@.len() + page->0.len()
                    && next.stage->Standings_scan_complete == last
                &&& page is Some && page->0.len() > room ==> next.stage->Standings_rows_scanned
                    == limit && !next.stage->Standings_scan_complete
                &&& forall|i: int|
                    0 <= i < next.stage->Standings_rows@.len() ==> is_open(
                        (#[trigger] next.stage->Standings_rows@[i])@,
                        texts(call.terminal@),
                    )
            }
        }),
{
    if next.stage is Standings {
        let room = call.bounds.scan_limit - before.rows@.len();
        let rows = match page {
            None => before.rows@,
            Some(brought) => before.rows@ + brought.subrange(
                0,
                crate::incident_queue::shorter(brought.len() as int, room),
            ),
        };
        let open = next.stage->Standings_rows@;
        let keep = open_rows(texts(call.terminal@));
        assert(row_views(open) == row_views(rows).filter(keep));
        lemma_filter_keeps(row_views(rows), keep);
        assert forall|i: int| 0 <= i < open.len() implies is_open(
            (#[trigger] open[i])@,
            texts(call.terminal@),
        ) by {
            assert(row_views(open)[i] == open[i]@);
            assert(row_views(rows).filter(keep).contains(row_views(open)[i]));
        }
    }
}

/// A queue is sorted, cut and counted as it was asked for.
pub proof fn requests_are_passed_on(call: QueueCall, scan_complete: bool, request: QueueRequest)
    requires
        request_of(call, scan_complete, request),
    ensures
        request.risk == call.ask.risk,
        request.sort_by == call.ask.sort_by,
        request.direction == call.ask.direction,
        request.stale_before@ == call.stale_before@,
        request.offset == call.bounds.offset,
        request.limit == call.bounds.limit,
        request.scan_complete == scan_complete,
{
}

/// The outcome of a call carries on what it found: the group, the rows, the page, the
/// counts and the mark of its beginning; and the departed incidents are those known that
/// have left, in ascending order.
pub proof fn outcomes_carry_on_what_was_found(
    call: QueueCall,
    found: Seq<Row>,
    next: QueueCall,
    id: Seq<char>,
)
    requires
        after_departures(call, found, next),
    ensures
        next.stage is Done,
        call.stage is Departures,
        ({
            let outcome = next.stage->Done_0;
            &&& outcome.group == call.stage->Departures_group
            &&& outcome.rows == call.stage->Departures_rows
            &&& outcome.page == call.stage->page
            &&& outcome.counts == call.stage->counts
            &&& outcome.rows_scanned == call.stage->Departures_rows_scanned
            &&& outcome.scan_complete == call.stage->Departures_scan_complete
            &&& outcome.watermark@ == call.watermark@
            &&& texts(outcome.departed_sys_ids@).contains(id) <==> texts(
                call.bounds.known_sys_ids@,
            ).contains(id) && has_left(
                row_views(found),
                outcome.group.sys_id@,
                texts(call.terminal@),
            )(id)
        }),
{
}

/// What was scanned is carried on to the answer: the items are those of its rows.
pub proof fn standings_are_taken_in(
    call: QueueCall,
    people: Seq<Option<String>>,
    list: Seq<QueueStanding>,
    items: Seq<QueueItem>,
    sorted: Seq<QueueItem>,
    request: QueueRequest,
    next: QueueCall,
)
    requires
        after_standings(call, people, list, items, sorted, request, next),
    ensures
        call.stage is Standings,
        next.stage is Departures,
        next.stage->Departures_group == call.stage->Standings_group,
        next.stage->Departures_rows == call.stage->Standings_rows,
        next.stage->Departures_rows_scanned == call.stage->Standings_rows_scanned,
        next.stage->Departures_scan_complete == call.stage->Standings_scan_complete,
        items.len() == call.stage->Standings_rows@.len(),
        next.stage->page.offset == call.bounds.offset,
        next.stage->page.items@.len() <= call.bounds.limit,
{
    crate::queue_laws::answers_are_what_was_asked_for(
        next.stage->page,
        next.stage->counts,
        sorted,
        items,
        request,
        0,
    );
}

} // verus!
