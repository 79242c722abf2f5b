//! Laws of the queues of assignment groups: their order, their counts, their pages, and
//! what they ask for.
use vstd::prelude::*;

use crate::incident_queue::{
    bad_priority, known_ids, priority_texts, queue_plan_of, queue_refusal, stale_cutoff_of,
    IncidentAssignmentGroup, IncidentQueueSlaRisk, IncidentSlaBucket, QueueInput, QueueLimits,
    ResolvedIncidentAssignee, INCIDENT_QUEUE_FIELDS,
};
use crate::listing::{lemma_filter_keeps, lemma_occurrences_are_counted, occurrences};
use crate::number::number_of;
use crate::query::{DisplayMode, SortKeyView};
use crate::queue_answer::{
    are_items_of, is_answer, row_standing, standing_of, QueueRequest, QueueStanding,
};
use crate::queue_items::{
    are_counts_of, assignees, buckets, count_keys, counts_are, departure_queries_of,
    departure_query_of, has_left, in_order, is_item_of, is_page_of, is_stale, last_row, of_risk,
    priorities, priority_rank, states, Count, IncidentQueueSortBy, IncidentQueueSortDirection,
    QueueAggregates, QueueItem, QueuePage,
};
use crate::row::{Row, RowView};
use crate::selection::{among, group_selection, selects, Held};
use crate::tables::sys_id_of;
use crate::text::{decimal, lemma_text_less_irreflexive, lower, names_of, text_less, text_of, trim};
use crate::timestamp::{timestamp_of, timestamp_text};
use crate::work::is_open;

verus! {

/// A queue that is sorted upwards by a key holds no item behind one with a greater key,
/// and one sorted downwards none behind one with a smaller key; the key is the field
/// that was asked for, and no other.
pub proof fn queues_are_sorted_by_the_key_asked_for(
    items: Seq<QueueItem>,
    by: IncidentQueueSortBy,
    direction: IncidentQueueSortDirection,
    i: int,
    j: int,
)
    requires
        in_order(items, by, direction),
        0 <= i < j < items.len(),
    ensures
        ({
            let up = direction == IncidentQueueSortDirection::Asc;
            let a = items[i];
            let b = items[j];
            &&& by == IncidentQueueSortBy::UpdatedAt && up ==> !text_less(
                b.updated_at@,
                a.updated_at@,
            )
            &&& by == IncidentQueueSortBy::UpdatedAt && !up ==> !text_less(
                a.updated_at@,
                b.updated_at@,
            )
            &&& by == IncidentQueueSortBy::OpenedAt && up ==> !text_less(b.opened_at@, a.opened_at@)
            &&& by == IncidentQueueSortBy::OpenedAt && !up ==> !text_less(
                a.opened_at@,
                b.opened_at@,
            )
            &&& by == IncidentQueueSortBy::Priority && up ==> priority_rank(a.priority@)
                <= priority_rank(b.priority@)
            &&& by == IncidentQueueSortBy::Priority && !up ==> priority_rank(a.priority@)
                >= priority_rank(b.priority@)
            &&& by == IncidentQueueSortBy::Assignee && up ==> !text_less(
                lower(b.assignee@),
                lower(a.assignee@),
            )
            &&& by == IncidentQueueSortBy::Assignee && !up ==> !text_less(
                lower(a.assignee@),
                lower(b.assignee@),
            )
            &&& by == IncidentQueueSortBy::SlaRisk && up ==> not_above(a.bucket, b.bucket)
            &&& by == IncidentQueueSortBy::SlaRisk && !up ==> not_above(b.bucket, a.bucket)
        }),
{
    assert(!crate::queue_items::item_before(items[j], items[i], by, direction));
}

/// Whether one standing is not worse than another.
pub open spec fn not_above(a: IncidentSlaBucket, b: IncidentSlaBucket) -> bool {
    match a {
        IncidentSlaBucket::Unavailable => true,
        IncidentSlaBucket::Healthy => b != IncidentSlaBucket::Unavailable,
        IncidentSlaBucket::AtRisk => b == IncidentSlaBucket::AtRisk || b
            == IncidentSlaBucket::Breached,
        IncidentSlaBucket::Breached => b == IncidentSlaBucket::Breached,
    }
}

/// Items with the same key come in the order of their sys_ids, whatever the direction.
pub proof fn equal_keys_are_sorted_by_id(
    items: Seq<QueueItem>,
    by: IncidentQueueSortBy,
    direction: IncidentQueueSortDirection,
    i: int,
    j: int,
)
    requires
        in_order(items, by, direction),
        0 <= i < j < items.len(),
        by == IncidentQueueSortBy::UpdatedAt ==> items[i].updated_at@ == items[j].updated_at@,
        by == IncidentQueueSortBy::OpenedAt ==> items[i].opened_at@ == items[j].opened_at@,
        by == IncidentQueueSortBy::Priority ==> items[i].priority@ == items[j].priority@,
        by == IncidentQueueSortBy::Assignee ==> items[i].assignee@ == items[j].assignee@,
        by == IncidentQueueSortBy::SlaRisk ==> items[i].bucket == items[j].bucket,
    ensures
        !text_less(items[j].sys_id@, items[i].sys_id@),
{
    assert(!crate::queue_items::item_before(items[j], items[i], by, direction));
    lemma_text_less_irreflexive(items[i].updated_at@);
    lemma_text_less_irreflexive(items[i].opened_at@);
    lemma_text_less_irreflexive(lower(items[i].assignee@));
}

/// Priorities count by their numbers; what is no number below 256 counts last.
pub proof fn priorities_count_by_their_numbers(s: Seq<char>)
    ensures
        number_of(s) is Some && number_of(s)->0 <= 255 ==> priority_rank(s) == number_of(s)->0,
        number_of(s) is Some && number_of(s)->0 > 255 ==> priority_rank(s) == 255,
        number_of(s) is None ==> priority_rank(s) == 255,
{
}

pub open spec fn in_state(key: Seq<char>) -> spec_fn(QueueItem) -> bool {
    |i: QueueItem| i.state@ == key
}

pub open spec fn of_priority(key: Seq<char>) -> spec_fn(QueueItem) -> bool {
    |i: QueueItem| i.priority@ == key
}

pub open spec fn of_assignee(key: Seq<char>) -> spec_fn(QueueItem) -> bool {
    |i: QueueItem| i.assignee@ == key
}

pub open spec fn in_bucket(key: Seq<char>) -> spec_fn(QueueItem) -> bool {
    |i: QueueItem|
        key == match i.bucket {
            IncidentSlaBucket::Unavailable => "unavailable"@,
            IncidentSlaBucket::Healthy => "healthy"@,
            IncidentSlaBucket::AtRisk => "at_risk"@,
            IncidentSlaBucket::Breached => "breached"@,
        }
}

pub open spec fn untouched_since(t: Seq<char>) -> spec_fn(QueueItem) -> bool {
    |i: QueueItem| text_less(i.updated_at@, t)
}

/// The count that a list gives a key; nothing where it does not list it.
pub open spec fn count_for(counts: Seq<Count>, key: Seq<char>) -> nat
    decreases counts.len(),
{
    if counts.len() == 0 {
        0
    } else if counts.last().key@ == key {
        counts.last().count as nat
    } else {
        count_for(counts.drop_last(), key)
    }
}

proof fn lemma_count_for(counts: Seq<Count>, keys: Seq<Seq<char>>, key: Seq<char>)
    requires
        forall|i: int|
            0 <= i < counts.len() ==> (#[trigger] counts[i]).count == occurrences(
                keys,
                counts[i].key@,
            ),
        (exists|i: int| 0 <= i < counts.len() && (#[trigger] counts[i]).key@ == key)
            || occurrences(keys, key) == 0,
    ensures
        count_for(counts, key) == occurrences(keys, key),
    decreases counts.len(),
{
    if counts.len() > 0 {
        let n = counts.len() - 1;
        let front = counts.drop_last();
        assert(counts[n] == counts.last());
        if counts.last().key@ != key {
            assert forall|i: int| 0 <= i < front.len() implies (#[trigger] front[i]).count
                == occurrences(keys, front[i].key@) by {
                assert(front[i] == counts[i]);
            }
            if occurrences(keys, key) != 0 {
                let i = choose|i: int| 0 <= i < counts.len() && (#[trigger] counts[i]).key@ == key;
                assert(front[i] == counts[i]);
            }
            lemma_count_for(front, keys, key);
        }
    }
}

proof fn lemma_counted(counts: Seq<Count>, keys: Seq<Seq<char>>, key: Seq<char>)
    requires
        counts_are(counts, keys),
    ensures
        count_for(counts, key) == occurrences(keys, key),
        (exists|i: int| 0 <= i < counts.len() && (#[trigger] counts[i]).key@ == key)
            <==> occurrences(keys, key) > 0,
{
    assert(count_keys(counts).contains(key) <==> occurrences(keys, key) > 0);
    if count_keys(counts).contains(key) {
        let i = count_keys(counts).index_of(key);
        assert(counts[i].key@ == key);
    }
    if exists|i: int| 0 <= i < counts.len() && (#[trigger] counts[i]).key@ == key {
        let i = choose|i: int| 0 <= i < counts.len() && (#[trigger] counts[i]).key@ == key;
        assert(count_keys(counts)[i] == key);
    }
    lemma_count_for(counts, keys, key);
}

/// The counts of a queue say of every state, priority, assignee and standing how many
/// items have it, how many have no assignee, and how many were not touched since the
/// time that was given.
pub proof fn counts_say_how_many_items_there_are(
    r: QueueAggregates,
    items: Seq<QueueItem>,
    stale_before: Seq<char>,
    complete: bool,
    key: Seq<char>,
)
    requires
        are_counts_of(r, items, stale_before, complete),
    ensures
        count_for(r.by_state@, key) == items.filter(in_state(key)).len(),
        count_for(r.by_priority@, key) == items.filter(of_priority(key)).len(),
        count_for(r.by_assignee@, key) == items.filter(of_assignee(key)).len(),
        count_for(r.by_sla_risk@, key) == items.filter(in_bucket(key)).len(),
        r.unassigned == items.filter(of_assignee("unassigned"@)).len(),
        r.stale == items.filter(untouched_since(stale_before)).len(),
        r.complete == complete,
{
    lemma_counted(r.by_state@, states(items), key);
    lemma_counted(r.by_priority@, priorities(items), key);
    lemma_counted(r.by_assignee@, assignees(items), key);
    lemma_counted(r.by_sla_risk@, buckets(items), key);
    lemma_occurrences_are_counted(
        items,
        states(items),
        |i: QueueItem| i.state@,
        in_state(key),
        key,
    );
    lemma_occurrences_are_counted(
        items,
        priorities(items),
        |i: QueueItem| i.priority@,
        of_priority(key),
        key,
    );
    lemma_occurrences_are_counted(
        items,
        assignees(items),
        |i: QueueItem| i.assignee@,
        of_assignee(key),
        key,
    );
    lemma_occurrences_are_counted(
        items,
        assignees(items),
        |i: QueueItem| i.assignee@,
        of_assignee("unassigned"@),
        "unassigned"@,
    );
    lemma_occurrences_are_counted(
        items,
        buckets(items),
        |i: QueueItem| i.bucket.name(),
        in_bucket(key),
        key,
    );
    assert(is_stale(stale_before) =~= untouched_since(stale_before));
}

/// The keys of a count come in ascending order, each once.
pub proof fn counts_are_sorted_by_their_keys(
    counts: Seq<Count>,
    keys: Seq<Seq<char>>,
    i: int,
    j: int,
)
    requires
        counts_are(counts, keys),
        0 <= i < j < counts.len(),
    ensures
        text_less(counts[i].key@, counts[j].key@),
{
    assert(count_keys(counts)[i] == counts[i].key@);
    assert(count_keys(counts)[j] == counts[j].key@);
}

/// A page holds the items from its offset on, as many as it may and as there are; there
/// is a next page where items are left behind it, and it begins there; a page completes
/// the queue where there is none and everything was scanned.
pub proof fn pages_hold_the_items_from_their_offset(
    r: QueuePage,
    items: Seq<QueueItem>,
    offset: usize,
    limit: usize,
    scan_complete: bool,
    k: int,
)
    requires
        is_page_of(r, items, offset, limit, scan_complete),
    ensures
        r.offset == offset,
        offset >= items.len() ==> r.items@.len() == 0,
        offset < items.len() && offset + limit <= items.len() ==> r.items@.len() == limit,
        offset < items.len() && offset + limit > items.len() ==> r.items@.len() == items.len()
            - offset,
        0 <= k < r.items@.len() ==> r.items@[k] == items[offset + k],
        r.next_offset is Some <==> offset + limit < items.len(),
        r.next_offset is Some ==> r.next_offset->0 == offset + limit,
        r.complete <==> scan_complete && offset + limit >= items.len(),
{
}

/// The item of a row holds what the row says, each of its parts from its own field.
pub proof fn items_hold_what_their_row_says(
    r: QueueItem,
    row: Row,
    assignee: Option<Seq<char>>,
    bucket: IncidentSlaBucket,
    position: usize,
)
    requires
        is_item_of(r, row, assignee, bucket, position),
    ensures
        r.sys_id == row.sys_id,
        row@.shown("state"@) is Some ==> r.state@ == row@.shown("state"@)->0,
        row@.shown("state"@) is None ==> r.state@.len() == 0,
        row@.value("priority"@) is Some ==> r.priority@ == row@.value("priority"@)->0,
        row@.value("priority"@) is None ==> r.priority@.len() == 0,
        row@.value("opened_at"@) is Some ==> r.opened_at@ == row@.value("opened_at"@)->0,
        row@.value("opened_at"@) is None ==> r.opened_at@.len() == 0,
        row@.value("sys_updated_on"@) is Some ==> r.updated_at@ == row@.value(
            "sys_updated_on"@,
        )->0,
        row@.value("sys_updated_on"@) is None ==> r.updated_at@.len() == 0,
        assignee is Some && trim(assignee->0).len() > 0 ==> r.assignee@ == assignee->0,
        assignee is None || trim(assignee->0).len() == 0 ==> r.assignee@ == "unassigned"@,
        r.bucket == bucket,
        r.position == position,
{
}

/// Each standing has its own label and meets the filter of its name; every one meets
/// the filter for any.
pub proof fn standings_meet_their_own_filter(b: IncidentSlaBucket)
    ensures
        b.meets(IncidentQueueSlaRisk::Any),
        b.meets(IncidentQueueSlaRisk::Unavailable) <==> b == IncidentSlaBucket::Unavailable,
        b.meets(IncidentQueueSlaRisk::Healthy) <==> b == IncidentSlaBucket::Healthy,
        b.meets(IncidentQueueSlaRisk::AtRisk) <==> b == IncidentSlaBucket::AtRisk,
        b.meets(IncidentQueueSlaRisk::Breached) <==> b == IncidentSlaBucket::Breached,
        IncidentSlaBucket::Unavailable.name() == "unavailable"@,
        IncidentSlaBucket::Healthy.name() == "healthy"@,
        IncidentSlaBucket::AtRisk.name() == "at_risk"@,
        IncidentSlaBucket::Breached.name() == "breached"@,
        IncidentSlaBucket::Unavailable.rank() < IncidentSlaBucket::Healthy.rank(),
        IncidentSlaBucket::Healthy.rank() < IncidentSlaBucket::AtRisk.rank(),
        IncidentSlaBucket::AtRisk.rank() < IncidentSlaBucket::Breached.rank(),
        IncidentSlaBucket::Unavailable.rank() == 0,
        IncidentSlaBucket::Breached.rank() == 3,
{
}

/// The items of a risk are those whose standing meets it.
pub proof fn risks_are_kept_by_standing(
    items: Seq<QueueItem>,
    filter: IncidentQueueSlaRisk,
    item: QueueItem,
)
    ensures
        items.filter(of_risk(filter)).contains(item) <==> items.contains(item)
            && item.bucket.meets(filter),
{
    lemma_filter_keeps(items, of_risk(filter));
}

/// The query of a queue asks for the active incidents of the group that meet every
/// filter that was given, each on its own field; those untouched since the time given
/// where only they are wanted.
pub proof fn queue_queries_ask_for_what_was_given(
    group: Seq<char>,
    input: QueueInput,
    state: Option<Seq<char>>,
    assignee: Option<ResolvedIncidentAssignee>,
    stale_before: Seq<char>,
    held: Held,
)
    ensures
        selects(queue_plan_of(group, input, state, assignee, stale_before), held) <==> {
            &&& held("assignment_group"@) == group
            &&& held("active"@) == "true"@
            &&& state is Some ==> held("state"@) == state->0
            &&& assignee is Some && assignee->0 is Unassigned ==> held("assigned_to"@).len() == 0
            &&& assignee is Some && assignee->0 is User ==> held("assigned_to"@)
                == assignee->0->User_0@
            &&& input.priorities@.len() > 0 ==> among(
                held("priority"@),
                priority_texts(input.priorities@),
            )
            &&& input.opened_after is Some ==> text_less(
                input.opened_after->0@,
                held("opened_at"@),
            )
            &&& input.opened_before is Some ==> text_less(
                held("opened_at"@),
                input.opened_before->0@,
            )
            &&& input.updated_since is Some ==> text_less(
                input.updated_since->0@,
                held("sys_updated_on"@),
            )
            &&& input.updated_before is Some ==> text_less(
                held("sys_updated_on"@),
                input.updated_before->0@,
            )
            &&& input.stale_only ==> text_less(held("sys_updated_on"@), stale_before)
        },
{
    broadcast use group_selection;

    assert(priority_texts(input.priorities@).len() == input.priorities@.len());
}

/// The incidents of a queue are read by their ids, two hundred at a time.
pub proof fn queues_are_read_by_id(
    group: Seq<char>,
    input: QueueInput,
    state: Option<Seq<char>>,
    assignee: Option<ResolvedIncidentAssignee>,
    stale_before: Seq<char>,
)
    ensures
        ({
            let q = queue_plan_of(group, input, state, assignee, stale_before);
            &&& q.table == "incident"@
            &&& q.fields == names_of(INCIDENT_QUEUE_FIELDS@)
            &&& q.order == seq![SortKeyView { field: "sys_id"@, descending: false }]
            &&& q.limit == Some(200u32)
            &&& q.offset is None
            &&& q.display == DisplayMode::Both
            &&& q.without_links
            &&& q.without_count
        }),
{
    let q = queue_plan_of(group, input, state, assignee, stale_before);
    assert(q.fields =~= names_of(INCIDENT_QUEUE_FIELDS@));
    assert(q.order =~= seq![SortKeyView { field: "sys_id"@, descending: false }]);
}

/// What is read of an incident of a queue.
pub proof fn queues_read_what_they_show()
    ensures
        INCIDENT_QUEUE_FIELDS@.len() == 20,
        INCIDENT_QUEUE_FIELDS@[0]@ == "sys_id"@,
        INCIDENT_QUEUE_FIELDS@[1]@ == "number"@,
        INCIDENT_QUEUE_FIELDS@[2]@ == "short_description"@,
        INCIDENT_QUEUE_FIELDS@[3]@ == "description"@,
        INCIDENT_QUEUE_FIELDS@[4]@ == "state"@,
        INCIDENT_QUEUE_FIELDS@[5]@ == "priority"@,
        INCIDENT_QUEUE_FIELDS@[6]@ == "impact"@,
        INCIDENT_QUEUE_FIELDS@[7]@ == "urgency"@,
        INCIDENT_QUEUE_FIELDS@[8]@ == "opened_at"@,
        INCIDENT_QUEUE_FIELDS@[9]@ == "assigned_to"@,
        INCIDENT_QUEUE_FIELDS@[10]@ == "assignment_group"@,
        INCIDENT_QUEUE_FIELDS@[11]@ == "caller_id"@,
        INCIDENT_QUEUE_FIELDS@[12]@ == "cmdb_ci"@,
        INCIDENT_QUEUE_FIELDS@[13]@ == "business_service"@,
        INCIDENT_QUEUE_FIELDS@[14]@ == "hold_reason"@,
        INCIDENT_QUEUE_FIELDS@[15]@ == "active"@,
        INCIDENT_QUEUE_FIELDS@[16]@ == "sys_updated_on"@,
        INCIDENT_QUEUE_FIELDS@[17]@ == "sys_mod_count"@,
        INCIDENT_QUEUE_FIELDS@[18]@ == "work_notes"@,
        INCIDENT_QUEUE_FIELDS@[19]@ == "comments"@,
{
}

/// Priorities are asked for by their digits, one for one.
pub proof fn priorities_are_asked_for_by_digits(p: Seq<u8>, i: int)
    ensures
        priority_texts(p).len() == p.len(),
        0 <= i < p.len() ==> priority_texts(p)[i] == decimal(p[i] as nat),
{
}

pub open spec fn is_point(value: Option<String>) -> bool {
    value is Some ==> timestamp_of(trim(value->0@)) is Some
}

/// The request for a queue is accepted where the group is named, the limits are within
/// their bounds, the offset lies within what is scanned, there are not too many known
/// incidents, the threshold is a percentage, the priorities are from one to five and
/// every time can be read.
pub proof fn readable_queue_requests_are_accepted(input: QueueInput, limits: QueueLimits)
    ensures
        ({
            let limit = match input.limit {
                Some(n) => n,
                None => limits.default_limit,
            };
            let scan = match input.scan_limit {
                Some(n) => n,
                None => limits.default_scan_limit,
            };
            let offset = match input.offset {
                Some(n) => n,
                None => 0,
            };
            queue_refusal(input, limits) is None <==> {
                &&& trim(input.group@).len() > 0
                &&& 1 <= limit <= limits.max_limit
                &&& 1 <= scan <= limits.max_scan_limit
                &&& offset < scan
                &&& input.known_sys_ids@.len() <= limits.max_known_sys_ids
                &&& input.threshold_is_percentage
                &&& forall|i: int|
                    0 <= i < input.priorities@.len() ==> 1 <= #[trigger] input.priorities@[i] <= 5
                &&& is_point(input.opened_after)
                &&& is_point(input.opened_before)
                &&& is_point(input.updated_since)
                &&& is_point(input.updated_before)
                &&& is_point(input.stale_before)
            }
        }),
{
    if bad_priority(input.priorities@) {
        let i = choose|i: int|
            0 <= i < input.priorities@.len() && !(1 <= #[trigger] input.priorities@[i] <= 5);
        assert(!(1 <= input.priorities@[i] <= 5));
    }
}

/// The known incidents are those that were named, in their usual spelling and each once,
/// in the order in which they were first named: naming more of them adds behind those
/// that are there.
pub proof fn known_incidents_are_those_named(a: Seq<Seq<char>>, b: Seq<Seq<char>>)
    ensures
        forall|id: Seq<char>| #[trigger]
            known_ids(a).contains(id) <==> exists|i: int|
                0 <= i < a.len() && sys_id_of(#[trigger] a[i]) == Some(id),
        known_ids(a).no_duplicates(),
        known_ids(a + b).len() >= known_ids(a).len(),
        known_ids(a + b).subrange(0, known_ids(a).len() as int) == known_ids(a),
    decreases a.len(), b.len(),
{
    if a.len() > 0 {
        let front = a.drop_last();
        let n = a.len() - 1;
        known_incidents_are_those_named(front, Seq::empty());
        assert forall|id: Seq<char>| #[trigger] known_ids(a).contains(id) <==> exists|i: int|
            0 <= i < a.len() && sys_id_of(#[trigger] a[i]) == Some(id) by {
            if known_ids(a).contains(id) {
                if known_ids(front).contains(id) {
                    let i = choose|i: int|
                        0 <= i < front.len() && sys_id_of(#[trigger] front[i]) == Some(id);
                    assert(sys_id_of(a[i]) == Some(id));
                } else {
                    let k = known_ids(a).index_of(id);
                    if k < known_ids(front).len() {
                        assert(known_ids(front)[k] == id);
                    }
                    assert(sys_id_of(a[n]) == Some(id));
                }
            }
            if exists|i: int| 0 <= i < a.len() && sys_id_of(#[trigger] a[i]) == Some(id) {
                let i = choose|i: int| 0 <= i < a.len() && sys_id_of(#[trigger] a[i]) == Some(id);
                if i < n {
                    assert(sys_id_of(front[i]) == Some(id));
                    assert(known_ids(front).contains(id));
                    let k = known_ids(front).index_of(id);
                    assert(known_ids(front)[k] == id);
                    assert(known_ids(a)[k] == id);
                } else if !known_ids(front).contains(id) {
                    assert(known_ids(a)[known_ids(front).len() as int] == id);
                } else {
                    let k = known_ids(front).index_of(id);
                    assert(known_ids(front)[k] == id);
                    assert(known_ids(a)[k] == id);
                }
                assert(known_ids(a).contains(id));
            }
        }
        assert forall|i: int, j: int|
            0 <= i < known_ids(a).len() && 0 <= j < known_ids(a).len() && i != j implies known_ids(
            a,
        )[i] != known_ids(a)[j] by {
            let m = known_ids(front).len();
            if i < m && j < m {
                assert(known_ids(front)[i] != known_ids(front)[j]);
            } else if i < m {
                assert(known_ids(front).contains(known_ids(front)[i]));
            } else if j < m {
                assert(known_ids(front).contains(known_ids(front)[j]));
            }
        }
    }
    if b.len() == 0 {
        assert(a + b =~= a);
        assert(known_ids(a).subrange(0, known_ids(a).len() as int) =~= known_ids(a));
    } else {
        known_incidents_are_those_named(a, b.drop_last());
        assert((a + b).drop_last() =~= a + b.drop_last());
        assert(known_ids(a + b).subrange(0, known_ids(a).len() as int) =~= known_ids(
            a + b.drop_last(),
        ).subrange(0, known_ids(a).len() as int));
    }
}

/// An incident is stale where it was not touched since the time given, or for a day.
pub proof fn a_day_makes_stale(stale_before: Option<Seq<char>>, now: i64)
    ensures
        stale_before is Some ==> stale_cutoff_of(stale_before, now) == stale_before,
        stale_before is None && now - 24 * 60 * 60 >= i64::MIN ==> stale_cutoff_of(
            stale_before,
            now,
        ) == timestamp_text((now - 24 * 60 * 60) as i64),
        stale_before is None && now - 24 * 60 * 60 < i64::MIN ==> stale_cutoff_of(
            stale_before,
            now,
        ) is None,
{
}

/// A selector means a group by its id or by its name, in any case and whatever blanks
/// stand around it.
pub proof fn groups_are_meant_by_id_or_name(selector: Seq<char>, g: IncidentAssignmentGroup)
    ensures
        crate::incident_queue::selects(selector)(g) <==> lower(g.sys_id@) == lower(trim(selector))
            || lower(g.name@) == lower(trim(selector)),
{
    crate::text_laws::case_does_not_count(g.sys_id@, trim(selector));
    crate::text_laws::case_does_not_count(g.name@, trim(selector));
}

/// Known incidents are looked up by their ids, a hundred at a time, with what tells
/// whether they are still in the queue.
pub proof fn known_incidents_are_looked_up(ids: Seq<Seq<char>>, known: Seq<Seq<char>>, held: Held)
    requires
        0 < ids.len() <= 100,
    ensures
        ({
            let q = departure_query_of(ids);
            &&& selects(q, held) <==> among(held("sys_id"@), ids)
            &&& q.table == "incident"@
            &&& q.fields == seq!["sys_id"@, "state"@, "active"@, "assignment_group"@]
            &&& q.limit == Some(ids.len() as u32)
            &&& q.display == DisplayMode::Both
        }),
        departure_queries_of(known).len() * 100 >= known.len(),
        departure_queries_of(known).len() * 100 < known.len() + 100,
        forall|i: int|
            0 <= i < departure_queries_of(known).len() ==> (#[trigger] departure_queries_of(
                known,
            )[i]).limit == Some(
                (if i * 100 + 100 < known.len() {
                    100
                } else {
                    known.len() - i * 100
                }) as u32,
            ),
{
    broadcast use group_selection;

    let q = departure_query_of(ids);
    assert(q.fields =~= seq!["sys_id"@, "state"@, "active"@, "assignment_group"@]);
}

/// The row of an incident is the last with its id.
proof fn lemma_last_row(rows: Seq<RowView>, id: Seq<char>)
    ensures
        last_row(rows, id) is None <==> forall|i: int|
            0 <= i < rows.len() ==> (#[trigger] rows[i]).sys_id != id,
        last_row(rows, id) is Some ==> exists|i: int|
            {
                &&& 0 <= i < rows.len()
                &&& #[trigger] rows[i] == last_row(rows, id)->0
                &&& rows[i].sys_id == id
                &&& forall|k: int| i < k < rows.len() ==> (#[trigger] rows[k]).sys_id != id
            },
    decreases rows.len(),
{
    if rows.len() > 0 {
        let n = rows.len() - 1;
        let front = rows.drop_last();
        assert(rows[n] == rows.last());
        if rows.last().sys_id != id {
            lemma_last_row(front, id);
            if last_row(front, id) is Some {
                let i = choose|i: int|
                    {
                        &&& 0 <= i < front.len()
                        &&& #[trigger] front[i] == last_row(front, id)->0
                        &&& front[i].sys_id == id
                        &&& forall|k: int| i < k < front.len() ==> (#[trigger] front[k]).sys_id != id
                    };
                assert(rows[i] == front[i]);
                assert forall|k: int| i < k < rows.len() implies (#[trigger] rows[k]).sys_id != id by {
                    if k < n {
                        assert(front[k] == rows[k]);
                    }
                }
            } else {
                assert forall|k: int| 0 <= k < rows.len() implies (#[trigger] rows[k]).sys_id
                    != id by {
                    if k < n {
                        assert(front[k] == rows[k]);
                    }
                }
            }
        }
    }
}

/// A known incident has left the queue where no row bears its id any more, or where the
/// last row that does belongs to another group or is not open.
pub proof fn incidents_leave_when_closed_or_moved(
    rows: Seq<RowView>,
    group: Seq<char>,
    terminal: Seq<Seq<char>>,
    id: Seq<char>,
)
    ensures
        (forall|i: int| 0 <= i < rows.len() ==> (#[trigger] rows[i]).sys_id != id) ==> has_left(
            rows,
            group,
            terminal,
        )(id),
        forall|i: int|
            0 <= i < rows.len() && (#[trigger] rows[i]).sys_id == id && (forall|k: int|
                i < k < rows.len() ==> (#[trigger] rows[k]).sys_id != id) ==> (has_left(
                rows,
                group,
                terminal,
            )(id) <==> !is_open(rows[i], terminal) || !(rows[i].raw("assignment_group"@) == Some(
                group,
            ) || (rows[i].raw("assignment_group"@) is None && rows[i].shown("assignment_group"@)
                == Some(group)))),
{
    lemma_last_row(rows, id);
    if last_row(rows, id) is Some {
        let at = choose|i: int|
            {
                &&& 0 <= i < rows.len()
                &&& #[trigger] rows[i] == last_row(rows, id)->0
                &&& rows[i].sys_id == id
                &&& forall|k: int| i < k < rows.len() ==> (#[trigger] rows[k]).sys_id != id
            };
        assert forall|i: int|
            0 <= i < rows.len() && (#[trigger] rows[i]).sys_id == id && (forall|k: int|
                i < k < rows.len() ==> (#[trigger] rows[k]).sys_id != id) implies i == at by {
            if i < at {
                assert(rows[at].sys_id != id);
            }
            if at < i {
                assert(rows[i].sys_id != id);
            }
        }
    }
}

proof fn lemma_standing(list: Seq<QueueStanding>, id: Seq<char>)
    ensures
        (forall|i: int| 0 <= i < list.len() ==> (#[trigger] list[i]).sys_id@ != id) ==> standing_of(
            list,
            id,
        ) == IncidentSlaBucket::Unavailable,
        forall|i: int|
            0 <= i < list.len() && (#[trigger] list[i]).sys_id@ == id && (forall|k: int|
                i < k < list.len() ==> (#[trigger] list[k]).sys_id@ != id) ==> standing_of(list, id)
                == list[i].bucket,
    decreases list.len(),
{
    if list.len() > 0 {
        let n = list.len() - 1;
        let front = list.drop_last();
        assert(list[n] == list.last());
        lemma_standing(front, id);
        if forall|i: int| 0 <= i < list.len() ==> (#[trigger] list[i]).sys_id@ != id {
            assert forall|i: int| 0 <= i < front.len() implies (#[trigger] front[i]).sys_id@ != id by {
                assert(front[i] == list[i]);
            }
        }
        assert forall|i: int|
            0 <= i < list.len() && (#[trigger] list[i]).sys_id@ == id && (forall|k: int|
                i < k < list.len() ==> (#[trigger] list[k]).sys_id@ != id) implies standing_of(
            list,
            id,
        ) == list[i].bucket by {
            if i < n {
                assert(front[i] == list[i]);
                assert forall|k: int| i < k < front.len() implies (#[trigger] front[k]).sys_id@
                    != id by {
                    assert(front[k] == list[k]);
                }
            }
        }
    }
}

/// A row stands as the last standing given for it says, the first time its record
/// comes; where none is given, and where the record came before, nothing is known.
pub proof fn rows_stand_as_they_are_told(rows: Seq<Row>, list: Seq<QueueStanding>, at: int)
    requires
        0 <= at < rows.len(),
    ensures
        (exists|j: int| 0 <= j < at && (#[trigger] rows[j]).sys_id@ == rows[at].sys_id@)
            ==> row_standing(rows, list, at) == IncidentSlaBucket::Unavailable,
        (forall|i: int| 0 <= i < list.len() ==> (#[trigger] list[i]).sys_id@ != rows[at].sys_id@)
            ==> row_standing(rows, list, at) == IncidentSlaBucket::Unavailable,
        forall|i: int|
            0 <= i < list.len() && (#[trigger] list[i]).sys_id@ == rows[at].sys_id@ && (forall|
                k: int,
            |
                i < k < list.len() ==> (#[trigger] list[k]).sys_id@ != rows[at].sys_id@) && (forall|
                j: int,
            |
                0 <= j < at ==> (#[trigger] rows[j]).sys_id@ != rows[at].sys_id@) ==> row_standing(
                rows,
                list,
                at,
            ) == list[i].bucket,
{
    lemma_standing(list, rows[at].sys_id@);
}

/// There is one item for each row, in their order, and each finds its row again.
pub proof fn items_find_their_rows(
    r: Seq<QueueItem>,
    rows: Seq<Row>,
    people: Seq<Option<String>>,
    list: Seq<QueueStanding>,
    i: int,
)
    requires
        are_items_of(r, rows, people, list),
        0 <= i < rows.len() <= usize::MAX,
    ensures
        r.len() == rows.len(),
        r[i].sys_id == rows[i].sys_id,
        r[i].position == i,
        r[i].bucket == row_standing(rows, list, i),
        people[i] is Some && trim(people[i]->0@).len() > 0 ==> r[i].assignee@ == people[i]->0@,
{
    assert(is_item_of(
        r[i],
        rows[i],
        text_of(people[i]),
        row_standing(rows, list, i),
        i as usize,
    ));
}

/// An answer is cut from the sorted items of the risk that was asked for, and counts
/// all of them.
pub proof fn answers_are_what_was_asked_for(
    page: QueuePage,
    counts: QueueAggregates,
    sorted: Seq<QueueItem>,
    items: Seq<QueueItem>,
    request: QueueRequest,
    k: int,
)
    requires
        is_answer(page, counts, sorted, items, request),
    ensures
        sorted.to_multiset() == items.filter(of_risk(request.risk)).to_multiset(),
        in_order(sorted, request.sort_by, request.direction),
        page.offset == request.offset,
        0 <= k < page.items@.len() ==> page.items@[k] == sorted[request.offset + k],
        page.items@.len() <= request.limit,
        page.complete <==> request.scan_complete && request.offset + request.limit >= sorted.len(),
        counts.complete == request.scan_complete,
        counts.stale == sorted.filter(untouched_since(request.stale_before@)).len(),
        counts.unassigned == sorted.filter(of_assignee("unassigned"@)).len(),
{
    pages_hold_the_items_from_their_offset(
        page,
        sorted,
        request.offset,
        request.limit,
        request.scan_complete,
        k,
    );
    counts_say_how_many_items_there_are(
        counts,
        sorted,
        request.stale_before@,
        request.scan_complete,
        ""@,
    );
}

} // verus!
