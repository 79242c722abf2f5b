//! The standing of a record under its service level agreements. A percentage is
//! held in millionths.
use vstd::prelude::*;
use vstd::string::*;

use crate::article::{blank, is_blank};
use crate::row::Row;
use crate::text::{
    copy_text, lemma_text_order, less_text, same, same_any_case, same_ignoring_case, text_less,
    text_of, trim, trim_text,
};

verus! {

/// The tables whose records can have service level agreements.
pub const TASK_SLA_APPLICABLE_TABLES: [&'static str; 10] = [
    "task",
    "incident",
    "change_request",
    "change_task",
    "problem",
    "sc_request",
    "sc_req_item",
    "sc_task",
    "rm_story",
    "rm_scrum_task",
];

/// Whether the records of a table can have service level agreements.
pub open spec fn is_applicable(table: Seq<char>) -> bool {
    exists|i: int|
        0 <= i < 10 && same_ignoring_case(
            (#[trigger] TASK_SLA_APPLICABLE_TABLES@[i])@,
            trim(table),
        )
}

pub fn is_task_sla_applicable_table(table: &str) -> (r: bool)
    ensures
        r == is_applicable(table@),
{
    let name: String = trim_text(table);
    let mut i: usize = 0;
    while i < 10
        invariant
            i <= 10,
            name@ == trim(table@),
            forall|k: int|
                0 <= k < i ==> !same_ignoring_case(
                    (#[trigger] TASK_SLA_APPLICABLE_TABLES@[k])@,
                    name@,
                ),
        decreases 10 - i,
    {
        if same_any_case(TASK_SLA_APPLICABLE_TABLES[i], name.as_str()) {
            return true;
        }
        i += 1;
    }
    false
}

/// The record that the agreements are about.
#[derive(Debug, Clone, PartialEq, Eq)]
pub struct TaskSlaParentRef {
    pub record_number: String,
    pub record_table: String,
    pub record_sys_id: String,
}

/// What can be said of the agreements of a record.
#[derive(Debug, Clone, PartialEq, Eq)]
pub enum TaskSlaReadability {
    /// There are some, and they can be read.
    ReadableRows,
    /// None came back: there are none, or they may not be read.
    EmptyOrAclRestricted,
    /// The record was not found.
    ParentNotFound,
    /// The records of the table have none.
    NotApplicable,
}

/// The stage of an agreement.
#[derive(Debug, Clone, PartialEq, Eq)]
pub enum TaskSlaStage {
    InProgress,
    Paused,
    Completed,
    Cancelled,
    Other(String),
}

pub open spec fn stage_text(stage: TaskSlaStage) -> Seq<char> {
    match stage {
        TaskSlaStage::InProgress => "in_progress"@,
        TaskSlaStage::Paused => "paused"@,
        TaskSlaStage::Completed => "completed"@,
        TaskSlaStage::Cancelled => "cancelled"@,
        TaskSlaStage::Other(text) => text@,
    }
}

pub fn stage_label(stage: &TaskSlaStage) -> (r: String)
    ensures
        r@ == stage_text(*stage),
{
    match stage {
        TaskSlaStage::InProgress => "in_progress".to_owned(),
        TaskSlaStage::Paused => "paused".to_owned(),
        TaskSlaStage::Completed => "completed".to_owned(),
        TaskSlaStage::Cancelled => "cancelled".to_owned(),
        TaskSlaStage::Other(text) => text.clone(),
    }
}

/// An agreement as the provider gives it.
#[derive(Debug, Clone, PartialEq, Eq)]
pub struct TaskSla {
    pub sla_name: Option<String>,
    pub stage: Option<TaskSlaStage>,
    pub active: Option<bool>,
    pub has_breached: Option<bool>,
    pub planned_end_time: Option<String>,
    pub business_elapsed_millionths: Option<i64>,
    pub actual_time_left: Option<String>,
}

/// What is shown of an agreement.
#[derive(Debug, Clone, PartialEq, Eq)]
pub struct TaskSlaView {
    pub name: Option<String>,
    pub stage: Option<String>,
    pub active: Option<bool>,
    pub breached: Option<bool>,
    pub planned_end_time: Option<String>,
    pub business_elapsed_millionths: Option<i64>,
    pub time_left: Option<String>,
}

/// Whether a view shows an agreement.
pub open spec fn shows(view: TaskSlaView, sla: TaskSla) -> bool {
    &&& view.name == sla.sla_name
    &&& text_of(view.stage) == (match sla.stage {
        Some(stage) => Some(stage_text(stage)),
        None => None,
    })
    &&& view.active == sla.active
    &&& view.breached == sla.has_breached
    &&& view.planned_end_time == sla.planned_end_time
    &&& view.business_elapsed_millionths == sla.business_elapsed_millionths
    &&& view.time_left == sla.actual_time_left
}

impl TaskSlaView {
    pub fn from_task_sla(sla: &TaskSla) -> (r: TaskSlaView)
        ensures
            shows(r, *sla),
    {
        TaskSlaView {
            name: copy_text(&sla.sla_name),
            stage: match &sla.stage {
                Some(stage) => Some(stage_label(stage)),
                None => None,
            },
            active: sla.active,
            breached: sla.has_breached,
            planned_end_time: copy_text(&sla.planned_end_time),
            business_elapsed_millionths: sla.business_elapsed_millionths,
            time_left: copy_text(&sla.actual_time_left),
        }
    }
}

#[derive(Debug, Clone, PartialEq, Eq)]
pub struct TaskSlaSummaryView {
    pub total: usize,
    pub active: usize,
    pub breached: usize,
    pub next_breach: Option<TaskSlaView>,
    pub highest_business_elapsed_millionths: Option<i64>,
}

#[derive(Debug, Clone, PartialEq, Eq)]
pub struct TaskSlaStatus {
    pub record_number: String,
    pub record_table: String,
    pub record_sys_id: String,
    pub rows: Vec<TaskSlaView>,
    pub summary: TaskSlaSummaryView,
    pub readable: TaskSlaReadability,
}

pub open spec fn active_count(slas: Seq<TaskSla>) -> nat
    decreases slas.len(),
{
    if slas.len() == 0 {
        0
    } else {
        active_count(slas.drop_last()) + if slas.last().active == Some(true) {
            1nat
        } else {
            0nat
        }
    }
}

pub open spec fn breached_count(slas: Seq<TaskSla>) -> nat
    decreases slas.len(),
{
    if slas.len() == 0 {
        0
    } else {
        breached_count(slas.drop_last()) + if slas.last().has_breached == Some(true) {
            1nat
        } else {
            0nat
        }
    }
}

/// Whether an agreement can still be breached: it is active, not breached, at no
/// final stage, and it is known when it ends.
pub open spec fn can_breach(sla: TaskSla) -> bool {
    &&& sla.active == Some(true)
    &&& sla.has_breached != Some(true)
    &&& sla.planned_end_time is Some
    &&& !(sla.stage is Some && (sla.stage->0 is Completed || sla.stage->0 is Cancelled))
}

/// The place of the agreement that can be breached next: the one that ends
/// first, the earlier of two that end alike.
pub open spec fn next_place(slas: Seq<TaskSla>) -> Option<int>
    decreases slas.len(),
{
    if slas.len() == 0 {
        None
    } else {
        let before = next_place(slas.drop_last());
        if !can_breach(slas.last()) {
            before
        } else {
            match before {
                None => Some(slas.len() - 1),
                Some(i) => if text_less(
                    slas.last().planned_end_time->0@,
                    slas[i].planned_end_time->0@,
                ) {
                    Some(slas.len() - 1)
                } else {
                    Some(i)
                },
            }
        }
    }
}

/// The highest percentage that is known.
pub open spec fn highest(slas: Seq<TaskSla>) -> Option<i64>
    decreases slas.len(),
{
    if slas.len() == 0 {
        None
    } else {
        match (highest(slas.drop_last()), slas.last().business_elapsed_millionths) {
            (Some(a), Some(b)) => if a < b {
                Some(b)
            } else {
                Some(a)
            },
            (Some(a), None) => Some(a),
            (None, b) => b,
        }
    }
}

/// Whether a summary is that of the agreements.
pub open spec fn is_summary(s: TaskSlaSummaryView, slas: Seq<TaskSla>) -> bool {
    &&& s.total == slas.len()
    &&& s.active == active_count(slas)
    &&& s.breached == breached_count(slas)
    &&& match next_place(slas) {
        Some(i) => s.next_breach is Some && shows(s.next_breach->0, slas[i]),
        None => s.next_breach is None,
    }
    &&& s.highest_business_elapsed_millionths == highest(slas)
}

/// The agreement that is found as the next to be breached can be breached, and
/// none that can ends before it.
pub proof fn next_breach_is_the_earliest(slas: Seq<TaskSla>)
    ensures
        match next_place(slas) {
            Some(i) => {
                &&& 0 <= i < slas.len()
                &&& can_breach(slas[i])
                &&& forall|k: int|
                    0 <= k < slas.len() && can_breach(#[trigger] slas[k]) ==> !text_less(
                        slas[k].planned_end_time->0@,
                        slas[i].planned_end_time->0@,
                    )
            },
            None => forall|k: int| 0 <= k < slas.len() ==> !can_breach(#[trigger] slas[k]),
        },
    decreases slas.len(),
{
    if slas.len() > 0 {
        let front = slas.drop_last();
        next_breach_is_the_earliest(front);
        let n = slas.len() - 1;
        match next_place(slas) {
            Some(i) => {
                let end = slas[i].planned_end_time->0@;
                assert forall|k: int| 0 <= k < slas.len() && can_breach(
                    #[trigger] slas[k],
                ) implies !text_less(slas[k].planned_end_time->0@, end) by {
                    let here = slas[k].planned_end_time->0@;
                    lemma_text_order(end, here, end);
                    lemma_text_order(here, end, here);
                    if k < n {
                        assert(front[k] == slas[k]);
                        if let Some(j) = next_place(front) {
                            let other = front[j].planned_end_time->0@;
                            assert(front[j] == slas[j]);
                            lemma_text_order(here, end, other);
                            lemma_text_order(end, other, here);
                            lemma_text_order(here, other, end);
                        }
                    }
                }
            },
            None => {
                assert forall|k: int| 0 <= k < slas.len() implies !can_breach(
                    #[trigger] slas[k],
                ) by {
                    if k < n {
                        assert(front[k] == slas[k]);
                    }
                }
            },
        }
    }
}

fn breachable(sla: &TaskSla) -> (r: bool)
    ensures
        r == can_breach(*sla),
{
    let active: bool = match sla.active {
        Some(b) => b,
        None => false,
    };
    let breached: bool = match sla.has_breached {
        Some(b) => b,
        None => false,
    };
    let ended: bool = match &sla.stage {
        Some(TaskSlaStage::Completed) => true,
        Some(TaskSlaStage::Cancelled) => true,
        _ => false,
    };
    active && !breached && sla.planned_end_time.is_some() && !ended
}

fn ends_before(a: &TaskSla, b: &TaskSla) -> (r: bool)
    requires
        a.planned_end_time is Some,
        b.planned_end_time is Some,
    ensures
        r == text_less(a.planned_end_time->0@, b.planned_end_time->0@),
{
    match &a.planned_end_time {
        Some(x) => match &b.planned_end_time {
            Some(y) => less_text(x.as_str(), y.as_str()),
            None => false,
        },
        None => false,
    }
}

/// The summary of the agreements.
pub fn summary_from_task_slas(slas: &Vec<TaskSla>) -> (r: TaskSlaSummaryView)
    ensures
        is_summary(r, slas@),
{
    let mut active: usize = 0;
    let mut breached: usize = 0;
    let mut next: Option<usize> = None;
    let mut most: Option<i64> = None;
    let mut i: usize = 0;
    assert(slas@.subrange(0, 0) =~= Seq::<TaskSla>::empty());
    while i < slas.len()
        invariant
            i <= slas@.len(),
            active <= i,
            breached <= i,
            active == active_count(slas@.subrange(0, i as int)),
            breached == breached_count(slas@.subrange(0, i as int)),
            most == highest(slas@.subrange(0, i as int)),
            match next {
                Some(k) => k < i && next_place(slas@.subrange(0, i as int)) == Some(k as int)
                    && can_breach(slas@[k as int]),
                None => next_place(slas@.subrange(0, i as int)) is None,
            },
        decreases slas@.len() - i,
    {
        let sla: &TaskSla = &slas[i];
        proof {
            let longer = slas@.subrange(0, i + 1);
            assert(longer.drop_last() =~= slas@.subrange(0, i as int));
            assert(longer.last() == *sla);
        }
        if let Some(true) = sla.active {
            active += 1;
        }
        if let Some(true) = sla.has_breached {
            breached += 1;
        }
        if breachable(sla) {
            let sooner: bool = match next {
                Some(k) => ends_before(sla, &slas[k]),
                None => true,
            };
            if sooner {
                next = Some(i);
            }
        }
        most = match (most, sla.business_elapsed_millionths) {
            (Some(a), Some(b)) => if a < b {
                Some(b)
            } else {
                Some(a)
            },
            (Some(a), None) => Some(a),
            (None, b) => b,
        };
        i += 1;
    }
    assert(slas@.subrange(0, i as int) =~= slas@);
    TaskSlaSummaryView {
        total: slas.len(),
        active,
        breached,
        next_breach: match next {
            Some(k) => Some(TaskSlaView::from_task_sla(&slas[k])),
            None => None,
        },
        highest_business_elapsed_millionths: most,
    }
}

pub open spec fn no_slas() -> Seq<TaskSla> {
    Seq::empty()
}

fn zero_summary() -> (r: TaskSlaSummaryView)
    ensures
        is_summary(r, no_slas()),
{
    TaskSlaSummaryView {
        total: 0,
        active: 0,
        breached: 0,
        next_breach: None,
        highest_business_elapsed_millionths: None,
    }
}

/// The record that a row is, for a lookup by number.
pub fn parent_ref_from_record(row: &Row, requested_number: &str) -> (r: TaskSlaParentRef)
    ensures
        r.record_table == row.table,
        r.record_sys_id == row.sys_id,
        r.record_number@ == (match row@.shown("number"@) {
            Some(n) => if is_blank(n) {
                requested_number@
            } else {
                n
            },
            None => requested_number@,
        }),
{
    let number: String = match row.get_str("number") {
        Some(n) => if blank(n) {
            requested_number.to_owned()
        } else {
            n.to_owned()
        },
        None => requested_number.to_owned(),
    };
    TaskSlaParentRef {
        record_number: number,
        record_table: row.table.clone(),
        record_sys_id: row.sys_id.clone(),
    }
}

/// The status where the record was not found.
pub fn parent_not_found_status(number: &str) -> (r: TaskSlaStatus)
    ensures
        r.record_number@ == number@,
        r.record_table@.len() == 0,
        r.record_sys_id@.len() == 0,
        r.rows@.len() == 0,
        is_summary(r.summary, no_slas()),
        r.readable == TaskSlaReadability::ParentNotFound,
{
    TaskSlaStatus {
        record_number: number.to_owned(),
        record_table: String::new(),
        record_sys_id: String::new(),
        rows: Vec::new(),
        summary: zero_summary(),
        readable: TaskSlaReadability::ParentNotFound,
    }
}

/// Whether a status is about a record.
pub open spec fn is_about(s: TaskSlaStatus, parent: TaskSlaParentRef) -> bool {
    s.record_number == parent.record_number && s.record_table == parent.record_table
        && s.record_sys_id == parent.record_sys_id
}

pub fn status_without_rows(parent: TaskSlaParentRef, readable: TaskSlaReadability) -> (r:
    TaskSlaStatus)
    ensures
        is_about(r, parent),
        r.rows@.len() == 0,
        is_summary(r.summary, no_slas()),
        r.readable == readable,
{
    TaskSlaStatus {
        record_number: parent.record_number,
        record_table: parent.record_table,
        record_sys_id: parent.record_sys_id,
        rows: Vec::new(),
        summary: zero_summary(),
        readable,
    }
}

/// Whether a status is that of a record with these agreements.
pub open spec fn is_status_of(s: TaskSlaStatus, parent: TaskSlaParentRef, slas: Seq<TaskSla>) -> bool {
    &&& is_about(s, parent)
    &&& is_summary(s.summary, slas)
    &&& s.rows@.len() == slas.len()
    &&& forall|i: int| 0 <= i < slas.len() ==> shows(#[trigger] s.rows@[i], slas[i])
    &&& s.readable == (if slas.len() == 0 {
        TaskSlaReadability::EmptyOrAclRestricted
    } else {
        TaskSlaReadability::ReadableRows
    })
}

/// The status of a record with these agreements.
pub fn status_from_task_slas(parent: TaskSlaParentRef, slas: &Vec<TaskSla>) -> (r: TaskSlaStatus)
    ensures
        is_status_of(r, parent, slas@),
{
    if slas.len() == 0 {
        assert(slas@ =~= no_slas());
        return status_without_rows(parent, TaskSlaReadability::EmptyOrAclRestricted);
    }
    let summary: TaskSlaSummaryView = summary_from_task_slas(slas);
    let mut rows: Vec<TaskSlaView> = Vec::new();
    let mut i: usize = 0;
    while i < slas.len()
        invariant
            i <= slas@.len(),
            rows@.len() == i,
            forall|k: int| 0 <= k < i ==> shows(#[trigger] rows@[k], slas@[k]),
        decreases slas@.len() - i,
    {
        rows.push(TaskSlaView::from_task_sla(&slas[i]));
        i += 1;
    }
    TaskSlaStatus {
        record_number: parent.record_number,
        record_table: parent.record_table,
        record_sys_id: parent.record_sys_id,
        rows,
        summary,
        readable: TaskSlaReadability::ReadableRows,
    }
}

/// The status of a record once it is known: its table may have no agreements at
/// all.
pub open spec fn is_parent_status(s: TaskSlaStatus, parent: TaskSlaParentRef, slas: Seq<TaskSla>) -> bool {
    if is_applicable(parent.record_table@) {
        is_status_of(s, parent, slas)
    } else {
        is_about(s, parent) && s.rows@.len() == 0 && is_summary(s.summary, no_slas()) && s.readable
            == TaskSlaReadability::NotApplicable
    }
}

pub fn parent_status(parent: TaskSlaParentRef, slas: &Vec<TaskSla>) -> (r: TaskSlaStatus)
    ensures
        is_parent_status(r, parent, slas@),
{
    if is_task_sla_applicable_table(parent.record_table.as_str()) {
        status_from_task_slas(parent, slas)
    } else {
        status_without_rows(parent, TaskSlaReadability::NotApplicable)
    }
}

// --- several records at once ---

pub open spec fn has_slas() -> spec_fn(TaskSlaParentRef) -> bool {
    |p: TaskSlaParentRef| is_applicable(p.record_table@)
}

/// The ids of the records whose agreements are asked for.
pub fn applicable_ids(parents: &Vec<TaskSlaParentRef>) -> (r: Vec<String>)
    ensures
        r@ == parents@.filter(has_slas()).map_values(|p: TaskSlaParentRef| p.record_sys_id),
{
    let ghost all = parents@;
    let ghost keep = has_slas();
    let mut out: Vec<String> = Vec::new();
    let mut i: usize = 0;
    proof {
        crate::listing::lemma_filter_ends(all, keep);
        assert(out@ =~= all.subrange(0, 0).filter(keep).map_values(
            |p: TaskSlaParentRef| p.record_sys_id,
        ));
    }
    while i < parents.len()
        invariant
            i <= parents@.len(),
            all == parents@,
            keep == has_slas(),
            out@ == all.subrange(0, i as int).filter(keep).map_values(
                |p: TaskSlaParentRef| p.record_sys_id,
            ),
        decreases parents@.len() - i,
    {
        let ghost before = out@;
        let ghost kept = all.subrange(0, i as int).filter(keep);
        proof {
            crate::listing::lemma_filter_step(all, keep, i as int);
        }
        if is_task_sla_applicable_table(parents[i].record_table.as_str()) {
            let id: String = parents[i].record_sys_id.clone();
            out.push(id);
            assert(kept.push(parents@[i as int]).map_values(
                |p: TaskSlaParentRef| p.record_sys_id,
            ) =~= before.push(id));
        }
        i += 1;
    }
    assert(all.subrange(0, i as int) =~= all);
    out
}

/// The agreements of one record.
pub struct TaskSlaRows {
    pub task_sys_id: String,
    pub slas: Vec<TaskSla>,
}

/// The agreements of a record among those that came back.
pub open spec fn slas_of(rows: Seq<TaskSlaRows>, id: Seq<char>) -> Seq<TaskSla>
    decreases rows.len(),
{
    if rows.len() == 0 {
        Seq::empty()
    } else if rows.last().task_sys_id@ == id {
        rows.last().slas@
    } else {
        slas_of(rows.drop_last(), id)
    }
}

fn find_slas(rows: &Vec<TaskSlaRows>, id: &str) -> (r: Option<usize>)
    ensures
        match r {
            Some(i) => i < rows@.len() && slas_of(rows@, id@) == rows@[i as int].slas@,
            None => slas_of(rows@, id@) == no_slas(),
        },
{
    let mut n: usize = rows.len();
    assert(rows@.subrange(0, n as int) =~= rows@);
    while n > 0
        invariant
            n <= rows@.len(),
            slas_of(rows@, id@) == slas_of(rows@.subrange(0, n as int), id@),
        decreases n,
    {
        proof {
            assert(rows@.subrange(0, n as int).drop_last() =~= rows@.subrange(0, n - 1));
            assert(rows@.subrange(0, n as int).last() == rows@[n - 1]);
        }
        if same(rows[n - 1].task_sys_id.as_str(), id) {
            return Some(n - 1);
        }
        n -= 1;
    }
    None
}

/// The status of each of the records, in their order.
pub fn task_sla_statuses(parents: &Vec<TaskSlaParentRef>, rows: &Vec<TaskSlaRows>) -> (r: Vec<
    TaskSlaStatus,
>)
    ensures
        r@.len() == parents@.len(),
        forall|i: int|
            0 <= i < parents@.len() ==> is_parent_status(
                #[trigger] r@[i],
                parents@[i],
                slas_of(rows@, parents@[i].record_sys_id@),
            ),
{
    let mut out: Vec<TaskSlaStatus> = Vec::new();
    let mut i: usize = 0;
    while i < parents.len()
        invariant
            i <= parents@.len(),
            out@.len() == i,
            forall|k: int|
                0 <= k < i ==> is_parent_status(
                    #[trigger] out@[k],
                    parents@[k],
                    slas_of(rows@, parents@[k].record_sys_id@),
                ),
        decreases parents@.len() - i,
    {
        let parent = TaskSlaParentRef {
            record_number: parents[i].record_number.clone(),
            record_table: parents[i].record_table.clone(),
            record_sys_id: parents[i].record_sys_id.clone(),
        };
        let status: TaskSlaStatus = match find_slas(rows, parent.record_sys_id.as_str()) {
            Some(k) => parent_status(parent, &rows[k].slas),
            None => {
                let nothing: Vec<TaskSla> = Vec::new();
                assert(nothing@ =~= no_slas());
                parent_status(parent, &nothing)
            },
        };
        out.push(status);
        i += 1;
    }
    out
}

/// The four answers about the agreements of a record are told apart: whether the
/// record was found, whether its table has agreements, and whether any came back.
pub proof fn readability_is_distinct(s: TaskSlaStatus, parent: TaskSlaParentRef, slas: Seq<TaskSla>)
    requires
        is_parent_status(s, parent, slas),
    ensures
        s.readable != TaskSlaReadability::ParentNotFound,
        s.readable == TaskSlaReadability::NotApplicable <==> !is_applicable(parent.record_table@),
        s.readable == TaskSlaReadability::EmptyOrAclRestricted <==> is_applicable(
            parent.record_table@,
        ) && slas.len() == 0,
        s.readable == TaskSlaReadability::ReadableRows <==> is_applicable(parent.record_table@)
            && slas.len() > 0,
{
}

} // verus!
