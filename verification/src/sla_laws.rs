//! Laws of the service level agreements: what a summary of them says, and which
//! records have any.
use vstd::prelude::*;

use crate::sla::{
    active_count, breached_count, can_breach, has_slas, highest, is_applicable, is_parent_status,
    is_summary, next_place, no_slas, shows, slas_of, stage_text, TaskSla, TaskSlaParentRef,
    TaskSlaReadability, TaskSlaRows, TaskSlaStage, TaskSlaStatus, TaskSlaSummaryView, TaskSlaView,
    TASK_SLA_APPLICABLE_TABLES,
};
use crate::text::{
    lemma_text_less_total, lemma_text_less_transitive, same_ignoring_case, text_less, trim,
};

verus! {

pub open spec fn runs() -> spec_fn(TaskSla) -> bool {
    |sla: TaskSla| sla.active == Some(true)
}

pub open spec fn is_breached() -> spec_fn(TaskSla) -> bool {
    |sla: TaskSla| sla.has_breached == Some(true)
}

/// Whether an agreement runs, is not breached, has a planned end, and is neither
/// completed nor cancelled.
pub open spec fn is_pending(sla: TaskSla) -> bool {
    &&& sla.active == Some(true)
    &&& sla.has_breached != Some(true)
    &&& sla.planned_end_time is Some
    &&& sla.stage != Some(TaskSlaStage::Completed)
    &&& sla.stage != Some(TaskSlaStage::Cancelled)
}

/// The highest share of a summary is that of some agreement, and no agreement has a
/// greater one; there is none where no agreement has a share.
pub proof fn the_highest_share_is_the_greatest(s: TaskSlaSummaryView, slas: Seq<TaskSla>)
    requires
        is_summary(s, slas),
    ensures
        s.highest_business_elapsed_millionths is None <==> forall|i: int|
            0 <= i < slas.len() ==> (#[trigger] slas[i]).business_elapsed_millionths is None,
        s.highest_business_elapsed_millionths is Some ==> exists|i: int|
            0 <= i < slas.len() && (#[trigger] slas[i]).business_elapsed_millionths
                == s.highest_business_elapsed_millionths,
        forall|i: int|
            0 <= i < slas.len() && (#[trigger] slas[i]).business_elapsed_millionths is Some
                ==> s.highest_business_elapsed_millionths is Some
                && slas[i].business_elapsed_millionths->0
                <= s.highest_business_elapsed_millionths->0,
{
    lemma_highest(slas);
}

proof fn lemma_highest(slas: Seq<TaskSla>)
    ensures
        highest(slas) is None <==> forall|i: int|
            0 <= i < slas.len() ==> (#[trigger] slas[i]).business_elapsed_millionths is None,
        highest(slas) is Some ==> exists|i: int|
            0 <= i < slas.len() && (#[trigger] slas[i]).business_elapsed_millionths == highest(
                slas,
            ),
        forall|i: int|
            0 <= i < slas.len() && (#[trigger] slas[i]).business_elapsed_millionths is Some
                ==> highest(slas) is Some && slas[i].business_elapsed_millionths->0 <= highest(
                slas,
            )->0,
    decreases slas.len(),
{
    if slas.len() > 0 {
        let front = slas.drop_last();
        let n = slas.len() - 1;
        lemma_highest(front);
        assert forall|i: int| 0 <= i < n implies #[trigger] slas[i] == front[i] by {
        }
        if highest(front) is Some {
            let i = choose|i: int|
                0 <= i < front.len() && (#[trigger] front[i]).business_elapsed_millionths
                    == highest(front);
            assert(slas[i] == front[i]);
            assert(slas[n] == slas.last());
        } else {
            assert(slas[n] == slas.last());
            assert forall|i: int| 0 <= i < n implies (
            #[trigger] slas[i]).business_elapsed_millionths is None by {
                assert(front[i].business_elapsed_millionths is None);
            }
        }
        if highest(slas) is None {
            assert forall|i: int| 0 <= i < slas.len() implies (
            #[trigger] slas[i]).business_elapsed_millionths is None by {
                if i < n {
                    assert(front[i].business_elapsed_millionths is None);
                }
            }
        }
        assert forall|i: int|
            0 <= i < slas.len() && (
            #[trigger] slas[i]).business_elapsed_millionths is Some implies highest(slas) is Some
            && slas[i].business_elapsed_millionths->0 <= highest(slas)->0 by {
            if i < n {
                assert(front[i].business_elapsed_millionths is Some);
            }
        }
    }
}

proof fn lemma_counts(slas: Seq<TaskSla>)
    ensures
        active_count(slas) == slas.filter(runs()).len(),
        breached_count(slas) == slas.filter(is_breached()).len(),
    decreases slas.len(),
{
    reveal(Seq::filter);
    if slas.len() > 0 {
        lemma_counts(slas.drop_last());
    }
}

/// A summary counts every agreement, those that run and those that are breached.
pub proof fn summaries_count_the_agreements(s: TaskSlaSummaryView, slas: Seq<TaskSla>)
    requires
        is_summary(s, slas),
    ensures
        s.total == slas.len(),
        s.active == slas.filter(runs()).len(),
        s.breached == slas.filter(is_breached()).len(),
{
    lemma_counts(slas);
}

proof fn lemma_next(slas: Seq<TaskSla>)
    ensures
        next_place(slas) is None <==> forall|i: int|
            0 <= i < slas.len() ==> !is_pending(#[trigger] slas[i]),
        next_place(slas) is Some ==> {
            let at = next_place(slas)->0;
            &&& 0 <= at < slas.len()
            &&& is_pending(slas[at])
            &&& forall|i: int|
                0 <= i < at && is_pending(#[trigger] slas[i]) ==> text_less(
                    slas[at].planned_end_time->0@,
                    slas[i].planned_end_time->0@,
                )
            &&& forall|i: int|
                at < i < slas.len() && is_pending(#[trigger] slas[i]) ==> !text_less(
                    slas[i].planned_end_time->0@,
                    slas[at].planned_end_time->0@,
                )
        },
    decreases slas.len(),
{
    if slas.len() > 0 {
        let front = slas.drop_last();
        let n = slas.len() - 1;
        lemma_next(front);
        assert forall|i: int| 0 <= i < n implies #[trigger] slas[i] == front[i] by {
        }
        assert(is_pending(slas[n]) == can_breach(slas.last()));
        if next_place(front) is None {
            assert forall|i: int| 0 <= i < n implies !is_pending(#[trigger] slas[i]) by {
                assert(!is_pending(front[i]));
            }
        } else {
            let at = next_place(front)->0;
            assert(slas[at] == front[at]);
            assert forall|i: int| 0 <= i < at && is_pending(#[trigger] slas[i]) implies text_less(
                slas[at].planned_end_time->0@,
                slas[i].planned_end_time->0@,
            ) by {
                assert(is_pending(front[i]));
            }
            assert forall|i: int| at < i < n && is_pending(#[trigger] slas[i]) implies !text_less(
                slas[i].planned_end_time->0@,
                slas[at].planned_end_time->0@,
            ) by {
                assert(is_pending(front[i]));
            }
            if can_breach(slas.last()) && text_less(
                slas.last().planned_end_time->0@,
                slas[at].planned_end_time->0@,
            ) {
                assert forall|i: int| 0 <= i < n && is_pending(#[trigger] slas[i]) implies text_less(
                    slas[n].planned_end_time->0@,
                    slas[i].planned_end_time->0@,
                ) by {
                    let last = slas[n].planned_end_time->0@;
                    let least = slas[at].planned_end_time->0@;
                    let other = slas[i].planned_end_time->0@;
                    if i < at {
                        lemma_text_less_transitive(last, least, other);
                    } else if i > at {
                        if text_less(least, other) {
                            lemma_text_less_transitive(last, least, other);
                        } else if least != other {
                            lemma_text_less_total(least, other);
                        }
                    }
                }
            }
        }
    }
}

/// The next breach of a summary is the agreement that can still be breached and ends
/// first; of several that end first, the one that comes first in the list. There is
/// none where no agreement can be breached.
pub proof fn the_next_breach_ends_first(s: TaskSlaSummaryView, slas: Seq<TaskSla>)
    requires
        is_summary(s, slas),
    ensures
        s.next_breach is None <==> forall|i: int|
            0 <= i < slas.len() ==> !is_pending(#[trigger] slas[i]),
        s.next_breach is Some ==> exists|at: int|
            {
                &&& 0 <= at < slas.len()
                &&& is_pending(#[trigger] slas[at])
                &&& shows(s.next_breach->0, slas[at])
                &&& forall|i: int|
                    0 <= i < at && is_pending(#[trigger] slas[i]) ==> text_less(
                        slas[at].planned_end_time->0@,
                        slas[i].planned_end_time->0@,
                    )
                &&& forall|i: int|
                    at < i < slas.len() && is_pending(#[trigger] slas[i]) ==> !text_less(
                        slas[i].planned_end_time->0@,
                        slas[at].planned_end_time->0@,
                    )
            },
{
    lemma_next(slas);
    if next_place(slas) is Some {
        let at = next_place(slas)->0;
        assert(is_pending(slas[at]));
    }
}

/// What is shown of an agreement is what it holds, each of its parts in its own place.
pub proof fn agreements_are_shown_as_they_are(view: TaskSlaView, sla: TaskSla)
    requires
        shows(view, sla),
    ensures
        view.name == sla.sla_name,
        view.stage is Some <==> sla.stage is Some,
        view.active == sla.active,
        view.breached == sla.has_breached,
        view.planned_end_time == sla.planned_end_time,
        view.business_elapsed_millionths == sla.business_elapsed_millionths,
        view.time_left == sla.actual_time_left,
        sla.stage == Some(TaskSlaStage::InProgress) ==> view.stage->0@ == "in_progress"@,
        sla.stage == Some(TaskSlaStage::Paused) ==> view.stage->0@ == "paused"@,
        sla.stage == Some(TaskSlaStage::Completed) ==> view.stage->0@ == "completed"@,
        sla.stage == Some(TaskSlaStage::Cancelled) ==> view.stage->0@ == "cancelled"@,
        sla.stage is Some && sla.stage->0 is Other ==> view.stage->0@ == sla.stage->0->Other_0@,
{
}

/// The labels of the stages.
pub proof fn stages_have_their_labels(stage: TaskSlaStage)
    ensures
        stage is InProgress ==> stage_text(stage) == "in_progress"@,
        stage is Paused ==> stage_text(stage) == "paused"@,
        stage is Completed ==> stage_text(stage) == "completed"@,
        stage is Cancelled ==> stage_text(stage) == "cancelled"@,
        stage is Other ==> stage_text(stage) == stage->Other_0@,
{
}

/// The tables whose records have agreements, up to case and blanks.
pub proof fn tasks_have_agreements(table: Seq<char>)
    ensures
        is_applicable(table) <==> {
            let t = trim(table);
            ||| same_ignoring_case("task"@, t)
            ||| same_ignoring_case("incident"@, t)
            ||| same_ignoring_case("change_request"@, t)
            ||| same_ignoring_case("change_task"@, t)
            ||| same_ignoring_case("problem"@, t)
            ||| same_ignoring_case("sc_request"@, t)
            ||| same_ignoring_case("sc_req_item"@, t)
            ||| same_ignoring_case("sc_task"@, t)
            ||| same_ignoring_case("rm_story"@, t)
            ||| same_ignoring_case("rm_scrum_task"@, t)
        },
{
    let t = trim(table);
    let known = TASK_SLA_APPLICABLE_TABLES@;
    assert(known[0]@ == "task"@);
    assert(known[1]@ == "incident"@);
    assert(known[2]@ == "change_request"@);
    assert(known[3]@ == "change_task"@);
    assert(known[4]@ == "problem"@);
    assert(known[5]@ == "sc_request"@);
    assert(known[6]@ == "sc_req_item"@);
    assert(known[7]@ == "sc_task"@);
    assert(known[8]@ == "rm_story"@);
    assert(known[9]@ == "rm_scrum_task"@);
}

/// The status of a record names it, shows its agreements in their order and sums them
/// up; a record whose table has none shows none.
pub proof fn statuses_show_every_agreement(
    s: TaskSlaStatus,
    parent: TaskSlaParentRef,
    slas: Seq<TaskSla>,
    i: int,
)
    requires
        is_parent_status(s, parent, slas),
    ensures
        s.record_number == parent.record_number,
        s.record_table == parent.record_table,
        s.record_sys_id == parent.record_sys_id,
        is_applicable(parent.record_table@) ==> s.rows@.len() == slas.len() && s.summary.total
            == slas.len(),
        is_applicable(parent.record_table@) && 0 <= i < slas.len() ==> shows(s.rows@[i], slas[i]),
        !is_applicable(parent.record_table@) ==> {
            &&& s.rows@.len() == 0
            &&& s.summary.total == 0
            &&& s.summary.active == 0
            &&& s.summary.breached == 0
            &&& s.summary.next_breach is None
            &&& s.summary.highest_business_elapsed_millionths is None
            &&& s.readable == TaskSlaReadability::NotApplicable
        },
        is_applicable(parent.record_table@) && slas.len() == 0 ==> s.readable
            == TaskSlaReadability::EmptyOrAclRestricted,
        is_applicable(parent.record_table@) && slas.len() > 0 ==> s.readable
            == TaskSlaReadability::ReadableRows,
{
}

/// A summary of nothing counts nothing.
pub proof fn no_agreements_sum_up_to_nothing(s: TaskSlaSummaryView)
    requires
        is_summary(s, no_slas()),
    ensures
        s.total == 0,
        s.active == 0,
        s.breached == 0,
        s.next_breach is None,
        s.highest_business_elapsed_millionths is None,
{
}

/// The agreements that are taken for a record are those of the last answer that
/// bears its id; there are none where no answer bears it.
pub proof fn agreements_belong_to_their_record(rows: Seq<TaskSlaRows>, id: Seq<char>)
    ensures
        (forall|i: int| 0 <= i < rows.len() ==> (#[trigger] rows[i]).task_sys_id@ != id)
            ==> slas_of(rows, id).len() == 0,
        forall|at: int|
            0 <= at < rows.len() && (#[trigger] rows[at]).task_sys_id@ == id && (forall|i: int|
                at < i < rows.len() ==> (#[trigger] rows[i]).task_sys_id@ != id) ==> slas_of(
                rows,
                id,
            ) == rows[at].slas@,
    decreases rows.len(),
{
    if rows.len() > 0 {
        let front = rows.drop_last();
        let n = rows.len() - 1;
        agreements_belong_to_their_record(front, id);
        assert(rows[n] == rows.last());
        assert forall|at: int|
            0 <= at < rows.len() && (#[trigger] rows[at]).task_sys_id@ == id && (forall|i: int|
                at < i < rows.len() ==> (
                #[trigger] rows[i]).task_sys_id@ != id) implies slas_of(rows, id)
            == rows[at].slas@ by {
            if at < n {
                assert(front[at] == rows[at]);
                assert forall|i: int| at < i < front.len() implies (
                #[trigger] front[i]).task_sys_id@ != id by {
                    assert(front[i] == rows[i]);
                }
            }
        }
        if forall|i: int| 0 <= i < rows.len() ==> (#[trigger] rows[i]).task_sys_id@ != id {
            assert forall|i: int| 0 <= i < front.len() implies (
            #[trigger] front[i]).task_sys_id@ != id by {
                assert(front[i] == rows[i]);
            }
        }
    }
}

/// Agreements are asked for of those records alone whose table has any.
pub proof fn only_tasks_are_asked_for(p: TaskSlaParentRef)
    ensures
        has_slas()(p) <==> is_applicable(p.record_table@),
{
}

} // verus!
