//! The items of a queue: their order, their counts, the pages they are cut into,
//! and the known incidents that have left the queue.
use vstd::prelude::*;
use vstd::seq_lib::{to_multiset_insert};
use vstd::string::*;

use crate::incident_queue::{IncidentQueueSlaRisk, IncidentSlaBucket};
use crate::listing::{
    ascending, insert_ascending, lemma_filter_ends, lemma_filter_step, occurrences,
};
use crate::number::{number_of, parse_u64};
use crate::query::{query_views, DisplayMode, Query, QueryView};
use crate::row::{row_views, Row, RowView};
use crate::text::{
    lemma_text_less_irreflexive, lemma_text_less_total, lemma_text_less_transitive,
    lemma_text_order, less_text, lower, lower_text, or_empty, owned_or_empty, same, text_less,
    texts, trim, trim_text,
};
use crate::work::{is_open, row_is_open};

verus! {

/// One incident of the queue, by what it is sorted and counted by. `position`
/// finds its record again.
pub struct QueueItem {
    pub sys_id: String,
    pub state: String,
    pub priority: String,
    pub opened_at: String,
    pub updated_at: String,
    pub assignee: String,
    pub bucket: IncidentSlaBucket,
    pub position: usize,
}

/// The name that an assignee is counted under.
pub open spec fn assignee_label_of(display_name: Option<Seq<char>>) -> Seq<char> {
    match display_name {
        Some(n) if trim(n).len() > 0 => n,
        _ => "unassigned"@,
    }
}

pub fn incident_assignee_label(display_name: Option<&str>) -> (r: String)
    ensures
        r@ == assignee_label_of(crate::text::text_of_ref(display_name)),
{
    match display_name {
        Some(n) => {
            let trimmed: String = trim_text(n);
            if trimmed.as_str().is_empty() {
                "unassigned".to_owned()
            } else {
                n.to_owned()
            }
        },
        None => "unassigned".to_owned(),
    }
}

/// The item of a row.
pub open spec fn is_item_of(
    r: QueueItem,
    row: Row,
    assignee: Option<Seq<char>>,
    bucket: IncidentSlaBucket,
    position: usize,
) -> bool {
    &&& r.sys_id == row.sys_id
    &&& r.state@ == or_empty(row@.shown("state"@))
    &&& r.priority@ == or_empty(row@.value("priority"@))
    &&& r.opened_at@ == or_empty(row@.value("opened_at"@))
    &&& r.updated_at@ == or_empty(row@.value("sys_updated_on"@))
    &&& r.assignee@ == assignee_label_of(assignee)
    &&& r.bucket == bucket
    &&& r.position == position
}

/// The item that a row of the queue becomes.
pub fn queue_item(row: &Row, assignee: Option<&str>, bucket: IncidentSlaBucket, position: usize) -> (r:
    QueueItem)
    ensures
        is_item_of(r, *row, crate::text::text_of_ref(assignee), bucket, position),
{
    QueueItem {
        sys_id: row.sys_id.clone(),
        state: owned_or_empty(row.get_str("state")),
        priority: owned_or_empty(row.get_value("priority")),
        opened_at: owned_or_empty(row.get_value("opened_at")),
        updated_at: owned_or_empty(row.get_value("sys_updated_on")),
        assignee: incident_assignee_label(assignee),
        bucket,
        position,
    }
}

#[derive(Clone, Copy, Debug, PartialEq, Eq, Structural)]
pub enum IncidentQueueSortBy {
    Priority,
    OpenedAt,
    UpdatedAt,
    Assignee,
    SlaRisk,
}

#[derive(Clone, Copy, Debug, PartialEq, Eq, Structural)]
pub enum IncidentQueueSortDirection {
    Asc,
    Desc,
}

/// The priority as a number; what is none, or more than 255, comes last.
pub open spec fn priority_rank(s: Seq<char>) -> int {
    match number_of(s) {
        Some(n) => if n <= 255 {
            n as int
        } else {
            255
        },
        None => 255,
    }
}

/// The priority as a number; what is none counts as the greatest.
pub fn priority_number(s: &str) -> (r: u8)
    ensures
        r == priority_rank(s@),
{
    match parse_u64(s) {
        Some(n) => if n <= 255 {
            n as u8
        } else {
            255
        },
        None => 255,
    }
}

/// Whether one item's key comes before another's.
pub open spec fn key_less(a: QueueItem, b: QueueItem, by: IncidentQueueSortBy) -> bool {
    match by {
        IncidentQueueSortBy::Priority => priority_rank(a.priority@) < priority_rank(b.priority@),
        IncidentQueueSortBy::OpenedAt => text_less(a.opened_at@, b.opened_at@),
        IncidentQueueSortBy::UpdatedAt => text_less(a.updated_at@, b.updated_at@),
        IncidentQueueSortBy::Assignee => text_less(lower(a.assignee@), lower(b.assignee@)),
        IncidentQueueSortBy::SlaRisk => a.bucket.rank() < b.bucket.rank(),
    }
}

/// Whether one item comes before another: by key, in the direction asked for,
/// and by sys_id where the keys are the same.
pub open spec fn item_before(
    a: QueueItem,
    b: QueueItem,
    by: IncidentQueueSortBy,
    direction: IncidentQueueSortDirection,
) -> bool {
    let (first, second) = match direction {
        IncidentQueueSortDirection::Asc => (a, b),
        IncidentQueueSortDirection::Desc => (b, a),
    };
    key_less(first, second, by) || (!key_less(second, first, by) && text_less(
        a.sys_id@,
        b.sys_id@,
    ))
}

/// Sorted: no item comes after one that it should come before.
pub open spec fn in_order(
    items: Seq<QueueItem>,
    by: IncidentQueueSortBy,
    direction: IncidentQueueSortDirection,
) -> bool {
    forall|i: int, j: int|
        0 <= i < j < items.len() ==> !item_before(
            #[trigger] items[j],
            #[trigger] items[i],
            by,
            direction,
        )
}

proof fn lemma_key_order(a: QueueItem, b: QueueItem, c: QueueItem, by: IncidentQueueSortBy)
    ensures
        !key_less(a, a, by),
        key_less(a, b, by) && key_less(b, c, by) ==> key_less(a, c, by),
        // Items with the same key compare alike with every other.
        !key_less(a, b, by) && !key_less(b, a, by) ==> key_less(a, c, by) == key_less(b, c, by),
        !key_less(b, c, by) && !key_less(c, b, by) ==> key_less(a, b, by) == key_less(a, c, by),
{
    match by {
        IncidentQueueSortBy::Priority => {},
        IncidentQueueSortBy::SlaRisk => {},
        IncidentQueueSortBy::OpenedAt => {
            lemma_text_order(a.opened_at@, b.opened_at@, c.opened_at@);
            lemma_text_order(b.opened_at@, c.opened_at@, a.opened_at@);
        },
        IncidentQueueSortBy::UpdatedAt => {
            lemma_text_order(a.updated_at@, b.updated_at@, c.updated_at@);
            lemma_text_order(b.updated_at@, c.updated_at@, a.updated_at@);
        },
        IncidentQueueSortBy::Assignee => {
            lemma_text_order(lower(a.assignee@), lower(b.assignee@), lower(c.assignee@));
            lemma_text_order(lower(b.assignee@), lower(c.assignee@), lower(a.assignee@));
        },
    }
}

/// The order of items is transitive.
pub proof fn items_are_ordered(
    a: QueueItem,
    b: QueueItem,
    c: QueueItem,
    by: IncidentQueueSortBy,
    direction: IncidentQueueSortDirection,
)
    requires
        item_before(a, b, by, direction),
        item_before(b, c, by, direction),
    ensures
        item_before(a, c, by, direction),
{
    lemma_key_order(a, b, c, by);
    lemma_key_order(c, b, a, by);
    lemma_key_order(b, a, c, by);
    lemma_key_order(a, c, b, by);
    lemma_key_order(b, c, a, by);
    lemma_key_order(c, a, b, by);
    lemma_text_order(a.sys_id@, b.sys_id@, c.sys_id@);
}

fn key_before(a: &QueueItem, b: &QueueItem, by: IncidentQueueSortBy) -> (r: bool)
    ensures
        r == key_less(*a, *b, by),
{
    match by {
        IncidentQueueSortBy::Priority => priority_number(a.priority.as_str()) < priority_number(
            b.priority.as_str(),
        ),
        IncidentQueueSortBy::OpenedAt => less_text(a.opened_at.as_str(), b.opened_at.as_str()),
        IncidentQueueSortBy::UpdatedAt => less_text(a.updated_at.as_str(), b.updated_at.as_str()),
        IncidentQueueSortBy::Assignee => {
            let x: String = lower_text(a.assignee.as_str());
            let y: String = lower_text(b.assignee.as_str());
            less_text(x.as_str(), y.as_str())
        },
        IncidentQueueSortBy::SlaRisk => a.bucket.rank_number() < b.bucket.rank_number(),
    }
}

fn comes_before(
    a: &QueueItem,
    b: &QueueItem,
    by: IncidentQueueSortBy,
    direction: IncidentQueueSortDirection,
) -> (r: bool)
    ensures
        r == item_before(*a, *b, by, direction),
{
    let forward: bool = key_before(a, b, by);
    let backward: bool = key_before(b, a, by);
    let (less, more): (bool, bool) = match direction {
        IncidentQueueSortDirection::Asc => (forward, backward),
        IncidentQueueSortDirection::Desc => (backward, forward),
    };
    less || (!more && less_text(a.sys_id.as_str(), b.sys_id.as_str()))
}

/// Puts one item into a sorted list, behind those it does not come before.
fn place_item(
    items: &mut Vec<QueueItem>,
    item: QueueItem,
    by: IncidentQueueSortBy,
    direction: IncidentQueueSortDirection,
)
    requires
        in_order(old(items)@, by, direction),
    ensures
        in_order(final(items)@, by, direction),
        final(items)@.to_multiset() == old(items)@.to_multiset().insert(item),
{
    let ghost before = items@;
    let mut at: usize = 0;
    while at < items.len() && !comes_before(&item, &items[at], by, direction)
        invariant
            at <= items@.len(),
            items@ == before,
            forall|i: int| 0 <= i < at ==> !item_before(item, #[trigger] before[i], by, direction),
        decreases items@.len() - at,
    {
        at += 1;
    }
    items.insert(at, item);
    proof {
        to_multiset_insert(before, at as int, item);
        let after = items@;
        assert(after =~= before.insert(at as int, item));
        assert forall|i: int| at <= i < before.len() implies !item_before(
            #[trigger] before[i],
            item,
            by,
            direction,
        ) by {
            if item_before(before[i], item, by, direction) {
                items_are_ordered(before[i], item, before[at as int], by, direction);
                if i == at {
                    lemma_key_order(before[i], before[i], before[i], by);
                    lemma_text_less_irreflexive(before[i].sys_id@);
                }
            }
        }
        assert forall|i: int, j: int| 0 <= i < j < after.len() implies !item_before(
            #[trigger] after[j],
            #[trigger] after[i],
            by,
            direction,
        ) by {
            if j < at {
                assert(after[i] == before[i] && after[j] == before[j]);
            } else if j == at {
                assert(after[i] == before[i]);
            } else {
                assert(after[j] == before[j - 1]);
                if i < at {
                    assert(after[i] == before[i]);
                } else if i > at {
                    assert(after[i] == before[i - 1]);
                }
            }
        }
    }
}

/// Sorts the items of a queue: the same items, in order.
pub fn sort_incident_queue_items(
    items: Vec<QueueItem>,
    by: IncidentQueueSortBy,
    direction: IncidentQueueSortDirection,
) -> (r: Vec<QueueItem>)
    ensures
        in_order(r@, by, direction),
        r@.to_multiset() == items@.to_multiset(),
        r@.len() == items@.len(),
{
    let ghost all = items@;
    let mut rest: Vec<QueueItem> = items;
    let mut out: Vec<QueueItem> = Vec::new();
    let ghost mut done: int = 0;
    assert(all.subrange(0, all.len() as int) =~= all);
    assert(all.subrange(0, 0) =~= out@);
    while rest.len() > 0
        invariant
            0 <= done <= all.len(),
            rest@ == all.subrange(done, all.len() as int),
            in_order(out@, by, direction),
            out@.to_multiset() == all.subrange(0, done).to_multiset(),
        decreases rest@.len(),
    {
        let item: QueueItem = rest.remove(0);
        proof {
            assert(item == all[done]);
            vstd::seq_lib::to_multiset_build(all.subrange(0, done), item);
            assert(all.subrange(0, done + 1) =~= all.subrange(0, done).push(item));
            done = done + 1;
            assert(rest@ =~= all.subrange(done, all.len() as int));
        }
        place_item(&mut out, item, by, direction);
    }
    proof {
        assert(all.subrange(0, done) =~= all);
        vstd::seq_lib::to_multiset_len(out@);
        vstd::seq_lib::to_multiset_len(all);
    }
    out
}

/// The items whose standing the filter asks for, in their order.
pub open spec fn of_risk(filter: IncidentQueueSlaRisk) -> spec_fn(QueueItem) -> bool {
    |item: QueueItem| item.bucket.meets(filter)
}

pub fn keep_risk(items: Vec<QueueItem>, filter: IncidentQueueSlaRisk) -> (r: Vec<QueueItem>)
    ensures
        r@ == items@.filter(of_risk(filter)),
{
    let ghost all = items@;
    let ghost keep = of_risk(filter);
    let mut rest: Vec<QueueItem> = items;
    let mut out: Vec<QueueItem> = Vec::new();
    let ghost mut done: int = 0;
    proof {
        lemma_filter_ends(all, keep);
    }
    while rest.len() > 0
        invariant
            0 <= done <= all.len(),
            keep == of_risk(filter),
            rest@ == all.subrange(done, all.len() as int),
            out@ == all.subrange(0, done).filter(keep),
        decreases rest@.len(),
    {
        let item: QueueItem = rest.remove(0);
        proof {
            assert(item == all[done]);
            lemma_filter_step(all, keep, done);
            done = done + 1;
            assert(rest@ =~= all.subrange(done, all.len() as int));
        }
        if item.bucket.matches(filter) {
            out.push(item);
        }
    }
    proof {
        lemma_filter_ends(all, keep);
    }
    out
}

// --- counts ---

/// How often a key occurs.
pub struct Count {
    pub key: String,
    pub count: usize,
}

pub open spec fn count_keys(counts: Seq<Count>) -> Seq<Seq<char>> {
    counts.map_values(|c: Count| c.key@)
}

/// The counts are those of the keys: each key that occurs comes once, in
/// ascending order, with how often it occurs.
pub open spec fn counts_are(counts: Seq<Count>, keys: Seq<Seq<char>>) -> bool {
    &&& ascending(count_keys(counts))
    &&& forall|i: int|
        0 <= i < counts.len() ==> (#[trigger] counts[i]).count == occurrences(
            keys,
            counts[i].key@,
        )
    &&& forall|key: Seq<char>| #[trigger]
        count_keys(counts).contains(key) <==> occurrences(keys, key) > 0
}

pub proof fn lemma_occurrences_bound(keys: Seq<Seq<char>>, key: Seq<char>)
    ensures
        occurrences(keys, key) <= keys.len(),
    decreases keys.len(),
{
    if keys.len() > 0 {
        lemma_occurrences_bound(keys.drop_last(), key);
    }
}

/// How many items there are in all groups that a count lists.
pub open spec fn count_total(counts: Seq<Count>) -> int
    decreases counts.len(),
{
    if counts.len() == 0 {
        0
    } else {
        count_total(counts.drop_last()) + counts.last().count
    }
}

proof fn lemma_total_updated(counts: Seq<Count>, at: int, c: Count)
    requires
        0 <= at < counts.len(),
    ensures
        count_total(counts.update(at, c)) == count_total(counts) - counts[at].count + c.count,
    decreases counts.len(),
{
    let after = counts.update(at, c);
    if at == counts.len() - 1 {
        assert(after.drop_last() =~= counts.drop_last());
    } else {
        lemma_total_updated(counts.drop_last(), at, c);
        assert(after.drop_last() =~= counts.drop_last().update(at, c));
    }
}

proof fn lemma_total_inserted(counts: Seq<Count>, at: int, c: Count)
    requires
        0 <= at <= counts.len(),
    ensures
        count_total(counts.insert(at, c)) == count_total(counts) + c.count,
    decreases counts.len(),
{
    let after = counts.insert(at, c);
    if at == counts.len() {
        assert(after.drop_last() =~= counts);
    } else {
        lemma_total_inserted(counts.drop_last(), at, c);
        assert(after.drop_last() =~= counts.drop_last().insert(at, c));
    }
}

/// Counts one more key.
fn count_key(counts: &mut Vec<Count>, key: &str, Ghost(keys): Ghost<Seq<Seq<char>>>)
    requires
        counts_are(old(counts)@, keys),
        keys.len() < usize::MAX,
    ensures
        counts_are(final(counts)@, keys.push(key@)),
        count_total(final(counts)@) == count_total(old(counts)@) + 1,
{
    let ghost before = counts@;
    let ghost names = count_keys(before);
    let ghost longer = keys.push(key@);
    proof {
        assert(longer.drop_last() =~= keys);
        assert forall|k: Seq<char>| #[trigger] occurrences(longer, k) == occurrences(keys, k) + (
        if k == key@ {
            1nat
        } else {
            0
        }) by {}
    }
    let mut at: usize = 0;
    while at < counts.len() && less_text(counts[at].key.as_str(), key)
        invariant
            at <= counts@.len(),
            counts@ == before,
            names == count_keys(before),
            forall|i: int| 0 <= i < at ==> text_less(#[trigger] names[i], key@),
        decreases counts@.len() - at,
    {
        assert(names[at as int] == counts@[at as int].key@);
        at += 1;
    }
    if at < counts.len() && same(counts[at].key.as_str(), key) {
        assert(names[at as int] == key@);
        proof {
            lemma_occurrences_bound(keys, key@);
        }
        let raised: usize = counts[at].count + 1;
        counts[at].count = raised;
        proof {
            let after = counts@;
            lemma_total_updated(before, at as int, after[at as int]);
            assert(after =~= before.update(at as int, after[at as int]));
            assert(count_keys(after) =~= names);
            assert forall|i: int| 0 <= i < after.len() implies (#[trigger] after[i]).count
                == occurrences(longer, after[i].key@) by {
                assert(before[i].count == occurrences(keys, before[i].key@));
                if i != at {
                    assert(names[i] == after[i].key@);
                    if after[i].key@ == key@ {
                        if i < at {
                            lemma_text_less_irreflexive(key@);
                        } else {
                            assert(text_less(names[at as int], names[i]));
                            lemma_text_less_irreflexive(key@);
                        }
                    }
                }
            }
            assert forall|k: Seq<char>| #[trigger] count_keys(after).contains(k) <==> occurrences(
                longer,
                k,
            ) > 0 by {
                if k == key@ {
                    assert(names[at as int] == k);
                }
                assert(names.contains(k) <==> occurrences(keys, k) > 0);
            }
        }
        return ;
    }
    counts.insert(at, Count { key: key.to_owned(), count: 1 });
    proof {
        let after = counts@;
        lemma_total_inserted(before, at as int, after[at as int]);
        assert(after =~= before.insert(at as int, after[at as int]));
        let after_names = count_keys(after);
        assert(after_names =~= names.insert(at as int, key@));
        if at < names.len() {
            assert(names[at as int] == before[at as int].key@);
            lemma_text_less_total(names[at as int], key@);
        }
        assert forall|i: int| at <= i < names.len() implies text_less(
            key@,
            #[trigger] names[i],
        ) by {
            if i > at {
                lemma_text_less_transitive(key@, names[at as int], names[i]);
            }
        }
        assert forall|i: int, j: int| 0 <= i < j < after_names.len() implies text_less(
            #[trigger] after_names[i],
            #[trigger] after_names[j],
        ) by {
            if i < at {
                assert(after_names[i] == names[i]);
                if j > at {
                    assert(after_names[j] == names[j - 1]);
                }
            } else if i == at {
                assert(after_names[j] == names[j - 1]);
            } else {
                assert(after_names[i] == names[i - 1]);
                assert(after_names[j] == names[j - 1]);
            }
        }
        assert(!names.contains(key@)) by {
            if names.contains(key@) {
                let k = choose|k: int| 0 <= k < names.len() && names[k] == key@;
                lemma_text_less_irreflexive(key@);
            }
        }
        assert(occurrences(keys, key@) == 0);
        assert forall|i: int| 0 <= i < after.len() implies (#[trigger] after[i]).count
            == occurrences(longer, after[i].key@) by {
            if i < at {
                assert(after[i] == before[i]);
                assert(names[i] == before[i].key@);
                assert(names.contains(before[i].key@));
            } else if i > at {
                assert(after[i] == before[i - 1]);
                assert(names[i - 1] == before[i - 1].key@);
                assert(names.contains(before[i - 1].key@));
            }
        }
        assert forall|k: Seq<char>| #[trigger] after_names.contains(k) <==> occurrences(longer, k)
            > 0 by {
            if names.contains(k) {
                let m = choose|m: int| 0 <= m < names.len() && names[m] == k;
                if m < at {
                    assert(after_names[m] == k);
                } else {
                    assert(after_names[m + 1] == k);
                }
            }
            if k == key@ {
                assert(after_names[at as int] == k);
            }
            if after_names.contains(k) {
                let m = choose|m: int| 0 <= m < after_names.len() && after_names[m] == k;
                if m < at {
                    assert(names[m] == k);
                } else if m > at {
                    assert(names[m - 1] == k);
                }
            }
        }
    }
}


pub open spec fn states(items: Seq<QueueItem>) -> Seq<Seq<char>> {
    items.map_values(|i: QueueItem| i.state@)
}

pub open spec fn priorities(items: Seq<QueueItem>) -> Seq<Seq<char>> {
    items.map_values(|i: QueueItem| i.priority@)
}

pub open spec fn assignees(items: Seq<QueueItem>) -> Seq<Seq<char>> {
    items.map_values(|i: QueueItem| i.assignee@)
}

pub open spec fn buckets(items: Seq<QueueItem>) -> Seq<Seq<char>> {
    items.map_values(|i: QueueItem| i.bucket.name())
}

pub open spec fn is_stale(stale_before: Seq<char>) -> spec_fn(QueueItem) -> bool {
    |i: QueueItem| text_less(i.updated_at@, stale_before)
}

/// The counts of a queue.
pub struct QueueAggregates {
    pub complete: bool,
    pub by_state: Vec<Count>,
    pub by_priority: Vec<Count>,
    pub by_assignee: Vec<Count>,
    pub by_sla_risk: Vec<Count>,
    pub unassigned: usize,
    pub stale: usize,
}

/// The counts of some items: by state, priority, assignee and standing, those
/// without an assignee, and those that nobody has touched for long.
pub open spec fn are_counts_of(
    r: QueueAggregates,
    items: Seq<QueueItem>,
    stale_before: Seq<char>,
    complete: bool,
) -> bool {
    &&& r.complete == complete
    &&& counts_are(r.by_state@, states(items))
    &&& counts_are(r.by_priority@, priorities(items))
    &&& counts_are(r.by_assignee@, assignees(items))
    &&& counts_are(r.by_sla_risk@, buckets(items))
    &&& count_total(r.by_state@) == items.len()
    &&& count_total(r.by_priority@) == items.len()
    &&& count_total(r.by_assignee@) == items.len()
    &&& count_total(r.by_sla_risk@) == items.len()
    &&& r.unassigned == occurrences(assignees(items), "unassigned"@)
    &&& r.stale == items.filter(is_stale(stale_before)).len()
}

/// Counts the items of a queue by state, priority, assignee and standing, those
/// without an assignee, and those that nobody has touched for long. Every item is
/// counted once in each of the four.
pub fn incident_queue_aggregates(items: &Vec<QueueItem>, stale_before: &str, complete: bool) -> (r:
    QueueAggregates)
    ensures
        are_counts_of(r, items@, stale_before@, complete),
{
    let ghost all = items@;
    let count: usize = items.len();
    let mut by_state: Vec<Count> = Vec::new();
    let mut by_priority: Vec<Count> = Vec::new();
    let mut by_assignee: Vec<Count> = Vec::new();
    let mut by_sla_risk: Vec<Count> = Vec::new();
    let mut unassigned: usize = 0;
    let mut stale: usize = 0;
    let mut i: usize = 0;
    proof {
        lemma_filter_ends(all, is_stale(stale_before@));
        let none = all.subrange(0, 0);
        assert(states(none) =~= Seq::empty());
        assert(priorities(none) =~= Seq::empty());
        assert(assignees(none) =~= Seq::empty());
        assert(buckets(none) =~= Seq::empty());
        lemma_no_counts();
    }
    while i < count
        invariant
            count == items@.len(),
            i <= count,
            all == items@,
            counts_are(by_state@, states(all.subrange(0, i as int))),
            counts_are(by_priority@, priorities(all.subrange(0, i as int))),
            counts_are(by_assignee@, assignees(all.subrange(0, i as int))),
            counts_are(by_sla_risk@, buckets(all.subrange(0, i as int))),
            unassigned == occurrences(assignees(all.subrange(0, i as int)), "unassigned"@),
            unassigned <= i,
            count_total(by_state@) == i,
            count_total(by_priority@) == i,
            count_total(by_assignee@) == i,
            count_total(by_sla_risk@) == i,
            stale == all.subrange(0, i as int).filter(is_stale(stale_before@)).len(),
            stale <= i,
        decreases count - i,
    {
        let item: &QueueItem = &items[i];
        let ghost done = all.subrange(0, i as int);
        let ghost longer = all.subrange(0, i + 1);
        count_key(&mut by_state, item.state.as_str(), Ghost(states(done)));
        count_key(&mut by_priority, item.priority.as_str(), Ghost(priorities(done)));
        count_key(&mut by_assignee, item.assignee.as_str(), Ghost(assignees(done)));
        count_key(&mut by_sla_risk, item.bucket.label(), Ghost(buckets(done)));
        proof {
            assert(states(longer) =~= states(done).push(item.state@));
            assert(priorities(longer) =~= priorities(done).push(item.priority@));
            assert(assignees(longer) =~= assignees(done).push(item.assignee@));
            assert(buckets(longer) =~= buckets(done).push(item.bucket.name()));
            assert(assignees(longer).drop_last() =~= assignees(done));
            lemma_filter_step(all, is_stale(stale_before@), i as int);
        }
        if same(item.assignee.as_str(), "unassigned") {
            unassigned += 1;
        }
        if less_text(item.updated_at.as_str(), stale_before) {
            stale += 1;
        }
        i += 1;
    }
    proof {
        lemma_filter_ends(all, is_stale(stale_before@));
    }
    QueueAggregates {
        complete,
        by_state,
        by_priority,
        by_assignee,
        by_sla_risk,
        unassigned,
        stale,
    }
}

proof fn lemma_no_counts()
    ensures
        counts_are(Seq::<Count>::empty(), Seq::<Seq<char>>::empty()),
{
    assert(count_keys(Seq::<Count>::empty()) =~= Seq::empty());
}

// --- pages ---

/// One page of a sorted queue.
pub struct QueuePage {
    pub items: Vec<QueueItem>,
    pub offset: usize,
    pub next_offset: Option<usize>,
    pub complete: bool,
}

pub open spec fn page_bounds(total: int, offset: int, limit: int) -> (int, int) {
    let from = if offset < total {
        offset
    } else {
        total
    };
    let to = if from + limit < total {
        from + limit
    } else {
        total
    };
    (from, to)
}

/// Where the page behind this one begins: nowhere, if this one ends the list.
pub open spec fn next_offset_of(total: int, offset: int, limit: int) -> Option<int> {
    let (from, to) = page_bounds(total, offset, limit);
    if offset + (to - from) < total {
        Some(offset + (to - from))
    } else {
        None
    }
}

/// A page of some items.
pub open spec fn is_page_of(
    r: QueuePage,
    items: Seq<QueueItem>,
    offset: usize,
    limit: usize,
    scan_complete: bool,
) -> bool {
    let (from, to) = page_bounds(items.len() as int, offset as int, limit as int);
    let next = next_offset_of(items.len() as int, offset as int, limit as int);
    &&& r.items@ == items.subrange(from, to)
    &&& r.offset == offset
    &&& match r.next_offset {
        Some(n) => next == Some(n as int),
        None => next is None,
    }
    &&& r.complete == (scan_complete && next is None)
}

/// Cuts a page out of the queue.
pub fn queue_page(items: Vec<QueueItem>, offset: usize, limit: usize, scan_complete: bool) -> (r:
    QueuePage)
    ensures
        is_page_of(r, items@, offset, limit, scan_complete),
{
    let ghost all = items@;
    let total: usize = items.len();
    let mut rest: Vec<QueueItem> = items;
    let from: usize = if offset < total {
        offset
    } else {
        total
    };
    let to: usize = if limit < total - from {
        from + limit
    } else {
        total
    };
    rest.truncate(to);
    let page: Vec<QueueItem> = rest.split_off(from);
    assert(page@ =~= all.subrange(from as int, to as int));
    let consumed: usize = offset.saturating_add(to - from);
    let next_offset: Option<usize> = if consumed < total {
        Some(consumed)
    } else {
        None
    };
    let complete: bool = scan_complete && next_offset.is_none();
    QueuePage { items: page, offset, next_offset, complete }
}

/// What one reads by following the offsets from `offset` on.
pub open spec fn follow(items: Seq<QueueItem>, offset: int, limit: int) -> Seq<QueueItem>
    decreases items.len() - offset,
{
    let (from, to) = page_bounds(items.len() as int, offset, limit);
    match next_offset_of(items.len() as int, offset, limit) {
        Some(next) if next > offset => items.subrange(from, to) + follow(items, next, limit),
        _ => items.subrange(from, to),
    }
}

/// The pages of a queue, followed from an offset to the last one, give the rest
/// of the queue: nothing is left out and nothing comes twice.
pub proof fn queue_pages_cover(items: Seq<QueueItem>, offset: int, limit: int)
    requires
        0 <= offset <= items.len(),
        limit > 0,
    ensures
        follow(items, offset, limit) == items.subrange(offset, items.len() as int),
    decreases items.len() - offset,
{
    let (from, to) = page_bounds(items.len() as int, offset, limit);
    match next_offset_of(items.len() as int, offset, limit) {
        Some(next) => {
            queue_pages_cover(items, next, limit);
            assert(items.subrange(from, to) + items.subrange(next, items.len() as int)
                =~= items.subrange(offset, items.len() as int));
        },
        None => {},
    }
}

// --- departures ---

/// How many known incidents one query names.
pub const DEPARTURE_CHUNK: usize = 100;

/// The known incidents that the query at an index names.
pub open spec fn departure_chunk(known: Seq<Seq<char>>, index: int) -> Seq<Seq<char>> {
    let from = index * DEPARTURE_CHUNK;
    let to = if from + DEPARTURE_CHUNK < known.len() {
        from + DEPARTURE_CHUNK
    } else {
        known.len() as int
    };
    known.subrange(from, to)
}

pub open spec fn departure_query_of(ids: Seq<Seq<char>>) -> QueryView {
    QueryView::of("incident"@).in_list("sys_id"@, ids).field("sys_id"@).field("state"@).field(
        "active"@,
    ).field("assignment_group"@).display(DisplayMode::Both).no_links().limit(ids.len() as u32)
}

pub open spec fn departure_queries_of(known: Seq<Seq<char>>) -> Seq<QueryView> {
    Seq::new(
        ((known.len() + DEPARTURE_CHUNK - 1) / DEPARTURE_CHUNK as int) as nat,
        |i: int| departure_query_of(departure_chunk(known, i)),
    )
}

/// The queries by which the known incidents are looked up again.
pub fn departure_queries(known: &Vec<String>) -> (r: Vec<Query>)
    ensures
        query_views(r@) == departure_queries_of(texts(known@)),
{
    let ghost all = texts(known@);
    let mut out: Vec<Query> = Vec::new();
    let mut from: usize = 0;
    while from < known.len()
        invariant
            all == texts(known@),
            from == if out@.len() * DEPARTURE_CHUNK < all.len() {
                out@.len() * DEPARTURE_CHUNK
            } else {
                all.len() as int
            },
            out@.len() * DEPARTURE_CHUNK < all.len() + DEPARTURE_CHUNK,
            forall|i: int|
                0 <= i < out@.len() ==> (#[trigger] out@[i])@ == departure_query_of(
                    departure_chunk(all, i),
                ),
        decreases known@.len() - from,
    {
        let left: usize = known.len() - from;
        let count: usize = if left < DEPARTURE_CHUNK {
            left
        } else {
            DEPARTURE_CHUNK
        };
        let total: usize = known.len();
        let mut ids: Vec<String> = Vec::new();
        while ids.len() < count
            invariant
                ids@.len() <= count,
                total == known@.len(),
                from + count <= total,
                all == texts(known@),
                texts(ids@) == all.subrange(from as int, from + ids@.len()),
            decreases count - ids@.len(),
        {
            let ghost before = texts(ids@);
            ids.push(known[from + ids.len()].clone());
            assert(texts(ids@) =~= before.push(all[from + before.len()]));
            assert(texts(ids@) =~= all.subrange(from as int, from + ids@.len()));
        }
        assert(texts(ids@) =~= departure_chunk(all, out@.len() as int));
        out.push(
            Query::of("incident").in_list("sys_id", &ids).field("sys_id").field("state").field(
                "active",
            ).field("assignment_group").display(DisplayMode::Both).no_links().limit(count as u32),
        );
        from += count;
    }
    assert(query_views(out@) =~= departure_queries_of(all));
    out
}

/// Every known incident is named by a query, at its own place.
pub proof fn departure_queries_name_every_incident(known: Seq<Seq<char>>, at: int)
    requires
        0 <= at < known.len(),
    ensures
        0 <= at / DEPARTURE_CHUNK as int && at / (DEPARTURE_CHUNK as int) < departure_queries_of(
            known,
        ).len(),
        at % (DEPARTURE_CHUNK as int) < departure_chunk(
            known,
            at / DEPARTURE_CHUNK as int,
        ).len(),
        departure_chunk(known, at / DEPARTURE_CHUNK as int)[at % (DEPARTURE_CHUNK as int)]
            == known[at],
        departure_queries_of(known)[at / DEPARTURE_CHUNK as int] == departure_query_of(
            departure_chunk(known, at / DEPARTURE_CHUNK as int),
        ),
{
}

/// The last of the rows with a sys_id.
pub open spec fn last_row(rows: Seq<RowView>, id: Seq<char>) -> Option<RowView>
    decreases rows.len(),
{
    if rows.len() == 0 {
        None
    } else if rows.last().sys_id == id {
        Some(rows.last())
    } else {
        last_row(rows.drop_last(), id)
    }
}

/// The group that a row is assigned to.
pub open spec fn group_of(row: RowView) -> Option<Seq<char>> {
    match row.raw("assignment_group"@) {
        Some(g) => Some(g),
        None => row.shown("assignment_group"@),
    }
}

/// A known incident has left the queue if it is not there any more, belongs to
/// another group or is not open.
pub open spec fn has_left(
    rows: Seq<RowView>,
    group: Seq<char>,
    terminal: Seq<Seq<char>>,
) -> spec_fn(Seq<char>) -> bool {
    |id: Seq<char>|
        match last_row(rows, id) {
            None => true,
            Some(row) => group_of(row) != Some(group) || !is_open(row, terminal),
        }
}

fn find_last(rows: &Vec<Row>, id: &str) -> (r: Option<usize>)
    ensures
        match r {
            Some(i) => i < rows@.len() && last_row(row_views(rows@), id@) == Some(rows@[i as int]@),
            None => last_row(row_views(rows@), id@) is None,
        },
{
    let ghost all = row_views(rows@);
    let mut i: usize = rows.len();
    assert(all.subrange(0, all.len() as int) =~= all);
    while i > 0
        invariant
            i <= rows@.len(),
            all == row_views(rows@),
            last_row(all, id@) == last_row(all.subrange(0, i as int), id@),
        decreases i,
    {
        let ghost part = all.subrange(0, i as int);
        assert(part.last() == rows@[i - 1]@);
        assert(part.drop_last() =~= all.subrange(0, i - 1));
        if same(rows[i - 1].sys_id.as_str(), id) {
            return Some(i - 1);
        }
        i -= 1;
    }
    None
}

/// The known incidents that have left the queue, in ascending order.
pub fn incident_departures(
    known: &Vec<String>,
    rows: &Vec<Row>,
    group: &str,
    terminal: &Vec<String>,
) -> (r: Vec<String>)
    ensures
        ascending(texts(r@)),
        forall|id: Seq<char>| #[trigger]
            texts(r@).contains(id) <==> texts(known@).contains(id) && has_left(
                row_views(rows@),
                group@,
                texts(terminal@),
            )(id),
{
    let ghost all = texts(known@);
    let ghost left = has_left(row_views(rows@), group@, texts(terminal@));
    let mut out: Vec<String> = Vec::new();
    let mut i: usize = 0;
    assert(texts(out@) =~= Seq::empty());
    while i < known.len()
        invariant
            i <= known@.len(),
            all == texts(known@),
            left == has_left(row_views(rows@), group@, texts(terminal@)),
            ascending(texts(out@)),
            forall|id: Seq<char>| #[trigger]
                texts(out@).contains(id) <==> all.subrange(0, i as int).contains(id) && left(id),
        decreases known@.len() - i,
    {
        let id: &str = known[i].as_str();
        let gone: bool = match find_last(rows, id) {
            None => true,
            Some(k) => {
                let row: &Row = &rows[k];
                let own: Option<&str> = match row.get_raw("assignment_group") {
                    Some(g) => Some(g),
                    None => row.get_str("assignment_group"),
                };
                let other: bool = match own {
                    Some(g) => !same(g, group),
                    None => true,
                };
                other || !row_is_open(row, terminal)
            },
        };
        let ghost before = texts(out@);
        let ghost shorter = all.subrange(0, i as int);
        let ghost longer = all.subrange(0, i + 1);
        if gone {
            insert_ascending(&mut out, id);
        }
        proof {
            assert(all[i as int] == id@);
            assert(longer =~= shorter.push(id@));
            assert forall|k: Seq<char>| #[trigger] texts(out@).contains(k) <==> longer.contains(k)
                && left(k) by {
                assert(before.contains(k) <==> shorter.contains(k) && left(k));
                if shorter.contains(k) {
                    let m = choose|m: int| 0 <= m < shorter.len() && shorter[m] == k;
                    assert(longer[m] == k);
                }
                if longer.contains(k) && k != id@ {
                    let m = choose|m: int| 0 <= m < longer.len() && longer[m] == k;
                    assert(shorter[m] == k);
                }
                assert(longer[i as int] == id@);
            }
        }
        i += 1;
    }
    assert(all.subrange(0, all.len() as int) =~= all);
    out
}

} // verus!
