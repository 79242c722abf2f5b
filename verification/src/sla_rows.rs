//! Reading agreements from rows, and sorting them by the task that they are about.
use vstd::prelude::*;
use vstd::string::*;

use crate::listing::lemma_filter_ends;
use crate::query::{DisplayMode, Query, QueryView};
use crate::row::{Row, RowView};
use crate::sla::{slas_of, stage_text, TaskSla, TaskSlaRows, TaskSlaStage};
use crate::text::{same, text_of, texts};
use crate::user::{bool_field, field_truth};

verus! {

/// The query for the agreements of some tasks.
pub fn agreement_query(task_ids: &Vec<String>) -> (r: Query)
    ensures
        r@ == QueryView::of("task_sla"@).in_list("task"@, texts(task_ids@)).display(
            DisplayMode::Both,
        ).no_links(),
{
    Query::of("task_sla").in_list("task", task_ids).display(DisplayMode::Both).no_links()
}

/// Whether a label is that of one of the stages that are told apart.
pub open spec fn is_known_stage(label: Seq<char>) -> bool {
    ||| label == "in_progress"@
    ||| label == "paused"@
    ||| label == "completed"@
    ||| label == "cancelled"@
}

/// The stage that a label names; its label is the same again.
pub fn read_stage(label: &str) -> (r: TaskSlaStage)
    ensures
        stage_text(r) == label@,
        r is Other <==> !is_known_stage(label@),
{
    if same(label, "in_progress") {
        TaskSlaStage::InProgress
    } else if same(label, "paused") {
        TaskSlaStage::Paused
    } else if same(label, "completed") {
        TaskSlaStage::Completed
    } else if same(label, "cancelled") {
        TaskSlaStage::Cancelled
    } else {
        TaskSlaStage::Other(label.to_owned())
    }
}

/// The raw text of a field that is not empty.
pub open spec fn filled(row: RowView, field: Seq<char>) -> Option<Seq<char>> {
    match row.raw(field) {
        Some(t) => if t.len() == 0 {
            None
        } else {
            Some(t)
        },
        None => None,
    }
}

fn read_filled(row: &Row, field: &str) -> (r: Option<String>)
    ensures
        text_of(r) == filled(row@, field@),
{
    match row.get_raw(field) {
        Some(t) => if t.unicode_len() == 0 {
            None
        } else {
            Some(t.to_owned())
        },
        None => None,
    }
}

/// A row of an agreement, and the share of its time that has passed.
pub struct AgreementRow {
    pub row: Row,
    pub business_elapsed_millionths: Option<i64>,
}

/// Whether an agreement is what a row says.
pub open spec fn is_agreement(sla: TaskSla, item: AgreementRow) -> bool {
    let row = item.row@;
    &&& text_of(sla.sla_name) == row.display("sla"@)
    &&& match filled(row, "stage"@) {
        Some(label) => sla.stage is Some && stage_text(sla.stage->0) == label && (sla.stage->0
            is Other <==> !is_known_stage(label)),
        None => sla.stage is None,
    }
    &&& sla.active == field_truth(row, "active"@)
    &&& sla.has_breached == field_truth(row, "has_breached"@)
    &&& text_of(sla.planned_end_time) == filled(row, "planned_end_time"@)
    &&& sla.business_elapsed_millionths == item.business_elapsed_millionths
    &&& text_of(sla.actual_time_left) == filled(row, "time_left"@)
}

/// Reads an agreement.
pub fn read_agreement(item: &AgreementRow) -> (r: TaskSla)
    ensures
        is_agreement(r, *item),
{
    let row: &Row = &item.row;
    TaskSla {
        sla_name: match row.get_display("sla") {
            Some(t) => Some(t.to_owned()),
            None => None,
        },
        stage: match read_filled(row, "stage") {
            Some(label) => Some(read_stage(label.as_str())),
            None => None,
        },
        active: bool_field(row, "active"),
        has_breached: bool_field(row, "has_breached"),
        planned_end_time: read_filled(row, "planned_end_time"),
        business_elapsed_millionths: item.business_elapsed_millionths,
        actual_time_left: read_filled(row, "time_left"),
    }
}

/// Whether a row is about a task.
pub open spec fn about(id: Seq<char>) -> spec_fn(AgreementRow) -> bool {
    |item: AgreementRow| filled(item.row@, "task"@) == Some(id)
}

/// Whether agreements are what rows say, one by one.
pub open spec fn are_agreements(slas: Seq<TaskSla>, items: Seq<AgreementRow>) -> bool {
    &&& slas.len() == items.len()
    &&& forall|i: int| 0 <= i < slas.len() ==> is_agreement(#[trigger] slas[i], items[i])
}

/// No task has two groups.
spec fn apart(groups: Seq<TaskSlaRows>) -> bool {
    forall|i: int, j: int|
        0 <= i < j < groups.len() ==> (#[trigger] groups[i]).task_sys_id@ != (
        #[trigger] groups[j]).task_sys_id@
}

/// No group is that of a task.
spec fn ungrouped(groups: Seq<TaskSlaRows>, id: Seq<char>) -> bool {
    forall|i: int| 0 <= i < groups.len() ==> (#[trigger] groups[i]).task_sys_id@ != id
}

proof fn lemma_slas_at(groups: Seq<TaskSlaRows>, k: int)
    requires
        apart(groups),
        0 <= k < groups.len(),
    ensures
        slas_of(groups, groups[k].task_sys_id@) == groups[k].slas@,
    decreases groups.len(),
{
    if k < groups.len() - 1 {
        let front = groups.drop_last();
        assert(groups[k].task_sys_id@ != groups[groups.len() - 1].task_sys_id@);
        assert(apart(front)) by {
            assert forall|i: int, j: int| 0 <= i < j < front.len() implies (
            #[trigger] front[i]).task_sys_id@ != (#[trigger] front[j]).task_sys_id@ by {
                assert(front[i] == groups[i] && front[j] == groups[j]);
            }
        }
        assert(front[k] == groups[k]);
        lemma_slas_at(front, k);
    }
}

proof fn lemma_slas_absent(groups: Seq<TaskSlaRows>, id: Seq<char>)
    requires
        ungrouped(groups, id),
    ensures
        slas_of(groups, id) == Seq::<TaskSla>::empty(),
    decreases groups.len(),
{
    if groups.len() > 0 {
        let front = groups.drop_last();
        assert(groups[groups.len() - 1].task_sys_id@ != id);
        assert forall|i: int| 0 <= i < front.len() implies (#[trigger] front[i]).task_sys_id@
            != id by {
            assert(front[i] == groups[i]);
        }
        lemma_slas_absent(front, id);
    }
}

fn find_group(groups: &Vec<TaskSlaRows>, id: &str) -> (r: Option<usize>)
    ensures
        match r {
            Some(k) => k < groups@.len() && groups@[k as int].task_sys_id@ == id@,
            None => ungrouped(groups@, id@),
        },
{
    let mut k: usize = 0;
    while k < groups.len()
        invariant
            k <= groups@.len(),
            forall|i: int| 0 <= i < k ==> (#[trigger] groups@[i]).task_sys_id@ != id@,
        decreases groups@.len() - k,
    {
        if same(groups[k].task_sys_id.as_str(), id) {
            return Some(k);
        }
        k += 1;
    }
    None
}

/// Whether groups hold the agreements of all the rows, each under its task.
spec fn holds(groups: Seq<TaskSlaRows>, items: Seq<AgreementRow>) -> bool {
    &&& apart(groups)
    &&& forall|k: int|
        0 <= k < groups.len() ==> are_agreements(
            (#[trigger] groups[k]).slas@,
            items.filter(about(groups[k].task_sys_id@)),
        )
    &&& forall|id: Seq<char>|
        #![trigger items.filter(about(id))]
        ungrouped(groups, id) ==> items.filter(about(id)).len() == 0
}

proof fn lemma_one_more(seen: Seq<AgreementRow>, item: AgreementRow, id: Seq<char>)
    ensures
        seen.push(item).filter(about(id)) == (if about(id)(item) {
            seen.filter(about(id)).push(item)
        } else {
            seen.filter(about(id))
        }),
{
    reveal(Seq::filter);
    assert(seen.push(item).drop_last() =~= seen);
}

/// Groups still hold all agreements once that of a further row is put behind those
/// of its task, or into a group of its own where there is none.
proof fn lemma_grouped(
    before: Seq<TaskSlaRows>,
    after: Seq<TaskSlaRows>,
    seen: Seq<AgreementRow>,
    item: AgreementRow,
    sla: TaskSla,
    k: int,
)
    requires
        holds(before, seen),
        is_agreement(sla, item),
        0 <= k < after.len(),
        filled(item.row@, "task"@) == Some(after[k].task_sys_id@),
        forall|j: int| 0 <= j < before.len() && j != k ==> #[trigger] after[j] == before[j],
        if k < before.len() {
            &&& after.len() == before.len()
            &&& before[k].task_sys_id@ == after[k].task_sys_id@
            &&& after[k].slas@ == before[k].slas@.push(sla)
        } else {
            &&& after.len() == before.len() + 1
            &&& ungrouped(before, after[k].task_sys_id@)
            &&& after[k].slas@ == Seq::<TaskSla>::empty().push(sla)
        },
    ensures
        holds(after, seen.push(item)),
{
    let task = after[k].task_sys_id@;
    let now = seen.push(item);
    assert forall|i: int, j: int| 0 <= i < j < after.len() implies (
    #[trigger] after[i]).task_sys_id@ != (#[trigger] after[j]).task_sys_id@ by {
        if k < before.len() {
            assert(before[i].task_sys_id@ != before[j].task_sys_id@);
        } else if j < k {
            assert(before[i].task_sys_id@ != before[j].task_sys_id@);
        } else {
            assert(before[i].task_sys_id@ != task);
        }
    }
    assert forall|j: int| 0 <= j < after.len() implies are_agreements(
        (#[trigger] after[j]).slas@,
        now.filter(about(after[j].task_sys_id@)),
    ) by {
        let id = after[j].task_sys_id@;
        lemma_one_more(seen, item, id);
        if j < before.len() {
            assert(are_agreements(before[j].slas@, seen.filter(about(id))));
        } else {
            assert(seen.filter(about(id)).len() == 0);
        }
        if j != k {
            assert(id != task);
        }
    }
    assert forall|id: Seq<char>|
        #![trigger now.filter(about(id))]
        ungrouped(after, id) implies now.filter(about(id)).len() == 0 by {
        lemma_one_more(seen, item, id);
        assert(after[k].task_sys_id@ != id);
        assert forall|j: int| 0 <= j < before.len() implies (#[trigger] before[j]).task_sys_id@
            != id by {
            assert(after[j].task_sys_id@ != id);
        }
        assert(seen.filter(about(id)).len() == 0);
    }
}

/// The agreements by task. Under each task stand those of its rows, in their order;
/// rows that name no task are left out.
pub fn agreements_by_task(items: &Vec<AgreementRow>) -> (r: Vec<TaskSlaRows>)
    ensures
        forall|id: Seq<char>|
            are_agreements(#[trigger] slas_of(r@, id), items@.filter(about(id))),
{
    let ghost all = items@;
    let mut groups: Vec<TaskSlaRows> = Vec::new();
    let mut i: usize = 0;
    proof {
        assert forall|id: Seq<char>| #[trigger]
            all.subrange(0, 0).filter(about(id)).len() == 0 by {
            lemma_filter_ends(all, about(id));
        }
    }
    while i < items.len()
        invariant
            i <= items@.len(),
            all == items@,
            holds(groups@, all.subrange(0, i as int)),
        decreases items@.len() - i,
    {
        let ghost before = groups@;
        let ghost seen = all.subrange(0, i as int);
        assert(all.subrange(0, i + 1) =~= seen.push(items@[i as int]));
        match read_filled(&items[i].row, "task") {
            Some(task) => {
                let sla: TaskSla = read_agreement(&items[i]);
                match find_group(&groups, task.as_str()) {
                    Some(k) => {
                        groups[k].slas.push(sla);
                        proof {
                            lemma_grouped(before, groups@, seen, items@[i as int], sla, k as int);
                        }
                    },
                    None => {
                        let mut slas: Vec<TaskSla> = Vec::new();
                        slas.push(sla);
                        groups.push(TaskSlaRows { task_sys_id: task, slas });
                        proof {
                            let k = before.len() as int;
                            lemma_grouped(before, groups@, seen, items@[i as int], sla, k);
                        }
                    },
                }
            },
            None => {
                assert forall|id: Seq<char>| #[trigger]
                    seen.push(items@[i as int]).filter(about(id)) == seen.filter(about(id)) by {
                    lemma_one_more(seen, items@[i as int], id);
                }
            },
        }
        i += 1;
    }
    proof {
        assert(all.subrange(0, i as int) =~= all);
        assert forall|id: Seq<char>| are_agreements(
            #[trigger] slas_of(groups@, id),
            items@.filter(about(id)),
        ) by {
            if ungrouped(groups@, id) {
                lemma_slas_absent(groups@, id);
                assert(items@.filter(about(id)).len() == 0);
            } else {
                let k = choose|k: int|
                    0 <= k < groups@.len() && (#[trigger] groups@[k]).task_sys_id@ == id;
                lemma_slas_at(groups@, k);
            }
        }
    }
    groups
}

} // verus!
