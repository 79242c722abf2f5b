//! The answer on a group's queue: the items of the rows that were scanned, those
//! of the risk that was asked for, in order, counted, and one page of them.
use vstd::prelude::*;
use vstd::string::*;

use crate::incident_queue::{IncidentQueueSlaRisk, IncidentSlaBucket};
use crate::queue_items::{
    are_counts_of, in_order, incident_queue_aggregates, is_item_of, is_page_of, keep_risk, of_risk,
    queue_item, queue_page, sort_incident_queue_items, IncidentQueueSortBy,
    IncidentQueueSortDirection, QueueAggregates, QueueItem, QueuePage,
};
use crate::row::Row;
use crate::text::{same, text_of};
use crate::user::borrowed;

verus! {

/// How a record stands with its service levels.
pub struct QueueStanding {
    pub sys_id: String,
    pub bucket: IncidentSlaBucket,
}

/// The standing of a record; where several are given, the last.
pub open spec fn standing_of(list: Seq<QueueStanding>, id: Seq<char>) -> IncidentSlaBucket
    decreases list.len(),
{
    if list.len() == 0 {
        IncidentSlaBucket::Unavailable
    } else if list.last().sys_id@ == id {
        list.last().bucket
    } else {
        standing_of(list.drop_last(), id)
    }
}

pub open spec fn came_before(rows: Seq<Row>, i: int) -> bool {
    exists|j: int| 0 <= j < i && (#[trigger] rows[j]).sys_id@ == rows[i].sys_id@
}

/// The standing of a row. A record that comes twice has it the first time only.
pub open spec fn row_standing(rows: Seq<Row>, list: Seq<QueueStanding>, i: int) -> IncidentSlaBucket {
    if came_before(rows, i) {
        IncidentSlaBucket::Unavailable
    } else {
        standing_of(list, rows[i].sys_id@)
    }
}

fn find_standing(list: &Vec<QueueStanding>, id: &str) -> (r: IncidentSlaBucket)
    ensures
        r == standing_of(list@, id@),
{
    let mut n: usize = list.len();
    assert(list@.subrange(0, n as int) =~= list@);
    while n > 0
        invariant
            n <= list@.len(),
            standing_of(list@, id@) == standing_of(list@.subrange(0, n as int), id@),
        decreases n,
    {
        proof {
            let s = list@.subrange(0, n as int);
            assert(s.drop_last() =~= list@.subrange(0, n - 1));
            assert(s.last() == list@[n - 1]);
        }
        if same(list[n - 1].sys_id.as_str(), id) {
            return list[n - 1].bucket;
        }
        n -= 1;
    }
    IncidentSlaBucket::Unavailable
}

fn seen_before(rows: &Vec<Row>, i: usize) -> (r: bool)
    requires
        i < rows@.len(),
    ensures
        r == came_before(rows@, i as int),
{
    let mut j: usize = 0;
    while j < i
        invariant
            j <= i < rows@.len(),
            forall|k: int| 0 <= k < j ==> (#[trigger] rows@[k]).sys_id@ != rows@[i as int].sys_id@,
        decreases i - j,
    {
        if same(rows[j].sys_id.as_str(), rows[i].sys_id.as_str()) {
            return true;
        }
        j += 1;
    }
    false
}

/// The items of some rows, in their order. `assignees` are the names of those
/// whom the records are assigned to.
pub open spec fn are_items_of(
    r: Seq<QueueItem>,
    rows: Seq<Row>,
    assignees: Seq<Option<String>>,
    list: Seq<QueueStanding>,
) -> bool {
    r.len() == rows.len() && forall|i: int|
        0 <= i < rows.len() ==> is_item_of(
            #[trigger] r[i],
            rows[i],
            text_of(assignees[i]),
            row_standing(rows, list, i),
            i as usize,
        )
}

pub fn queue_items(
    rows: &Vec<Row>,
    assignees: &Vec<Option<String>>,
    list: &Vec<QueueStanding>,
) -> (r: Vec<QueueItem>)
    requires
        rows@.len() == assignees@.len(),
    ensures
        are_items_of(r@, rows@, assignees@, list@),
{
    let mut out: Vec<QueueItem> = Vec::new();
    let mut i: usize = 0;
    while i < rows.len()
        invariant
            i <= rows@.len(),
            rows@.len() == assignees@.len(),
            out@.len() == i,
            forall|k: int|
                0 <= k < i ==> is_item_of(
                    #[trigger] out@[k],
                    rows@[k],
                    text_of(assignees@[k]),
                    row_standing(rows@, list@, k),
                    k as usize,
                ),
        decreases rows@.len() - i,
    {
        let bucket: IncidentSlaBucket = if seen_before(rows, i) {
            IncidentSlaBucket::Unavailable
        } else {
            find_standing(list, rows[i].sys_id.as_str())
        };
        out.push(queue_item(&rows[i], borrowed(&assignees[i]), bucket, i));
        i += 1;
    }
    out
}

/// The answer: of the items of the risk that was asked for, in order, a page and
/// the counts of all of them.
pub open spec fn is_answer(
    page: QueuePage,
    counts: QueueAggregates,
    sorted: Seq<QueueItem>,
    items: Seq<QueueItem>,
    request: QueueRequest,
) -> bool {
    &&& in_order(sorted, request.sort_by, request.direction)
    &&& sorted.to_multiset() == items.filter(of_risk(request.risk)).to_multiset()
    &&& is_page_of(page, sorted, request.offset, request.limit, request.scan_complete)
    &&& are_counts_of(counts, sorted, request.stale_before@, request.scan_complete)
}

/// What is asked of the items.
pub struct QueueRequest {
    pub risk: IncidentQueueSlaRisk,
    pub sort_by: IncidentQueueSortBy,
    pub direction: IncidentQueueSortDirection,
    pub stale_before: String,
    pub offset: usize,
    pub limit: usize,
    /// Whether every record of the queue was scanned.
    pub scan_complete: bool,
}

pub fn queue_answer(items: Vec<QueueItem>, request: &QueueRequest) -> (r: (
    QueuePage,
    QueueAggregates,
))
    ensures
        exists|sorted: Seq<QueueItem>| #[trigger]
            is_answer(r.0, r.1, sorted, items@, *request),
{
    let ghost all = items@;
    let kept: Vec<QueueItem> = keep_risk(items, request.risk);
    let sorted: Vec<QueueItem> = sort_incident_queue_items(
        kept,
        request.sort_by,
        request.direction,
    );
    let ghost shown = sorted@;
    let counts: QueueAggregates = incident_queue_aggregates(
        &sorted,
        request.stale_before.as_str(),
        request.scan_complete,
    );
    let page: QueuePage = queue_page(sorted, request.offset, request.limit, request.scan_complete);
    let r: (QueuePage, QueueAggregates) = (page, counts);
    assert(is_answer(r.0, r.1, shown, all, *request));
    r
}

/// No item of another risk is answered with.
pub proof fn answers_keep_to_the_risk(
    page: QueuePage,
    counts: QueueAggregates,
    sorted: Seq<QueueItem>,
    items: Seq<QueueItem>,
    request: QueueRequest,
)
    requires
        is_answer(page, counts, sorted, items, request),
    ensures
        forall|i: int|
            0 <= i < page.items@.len() ==> (#[trigger] page.items@[i]).bucket.meets(request.risk)
                && items.contains(page.items@[i]),
        sorted.len() <= items.len(),
{
    let kept = items.filter(of_risk(request.risk));
    crate::listing::lemma_filter_sound(items, of_risk(request.risk));
    vstd::seq_lib::to_multiset_len(sorted);
    vstd::seq_lib::to_multiset_len(kept);
    assert forall|i: int| 0 <= i < page.items@.len() implies (
    #[trigger] page.items@[i]).bucket.meets(request.risk) && items.contains(page.items@[i]) by {
        let item = page.items@[i];
        let (from, to) = crate::queue_items::page_bounds(
            sorted.len() as int,
            request.offset as int,
            request.limit as int,
        );
        assert(item == sorted[from + i]);
        sorted.to_multiset_ensures();
        kept.to_multiset_ensures();
        assert(sorted.contains(item));
        assert(sorted.to_multiset().count(item) > 0);
        assert(kept.to_multiset().count(item) > 0);
        assert(kept.contains(item));
        let k = choose|k: int| 0 <= k < kept.len() && kept[k] == item;
        assert(items.contains(kept[k]) && of_risk(request.risk)(kept[k]));
    }
}

} // verus!
