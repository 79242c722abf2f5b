//! The working queue of one assignment group: what is asked for, how the rows are
//! scanned, sorted, counted and cut into pages, and which known incidents have left.
use vstd::prelude::*;
use vstd::string::*;

use crate::listing::ascending;
use crate::number::chosen;
use crate::query::{DisplayMode, Operator, Query, QueryView};
use crate::row::Row;
use crate::tables::{bad_sys_id, normalize_record_lookup_sys_id, sys_id_of};
use crate::text::{
    decimal, decimal_text, joined, joined3, list_has, names_of, same_any_case, same_ignoring_case,
    strings_of, text_of, texts, trim, trim_text,
};
use crate::timestamp::{format_timestamp, parse_timestamp, timestamp_of, timestamp_text};

verus! {

/// A group that the caller belongs to.
#[derive(Debug)]
pub struct IncidentAssignmentGroup {
    pub sys_id: String,
    pub name: String,
}

/// Why a queue was not built.
#[derive(Debug)]
pub enum QueueError {
    InvalidParams(String),
    /// A known sys_id is none.
    BadSysId(String),
    GroupNotFound { requested: String, available: Vec<IncidentAssignmentGroup> },
    AmbiguousGroup { requested: String, matches: Vec<IncidentAssignmentGroup> },
}

pub struct QueueLimits {
    pub default_limit: usize,
    pub max_limit: usize,
    pub default_scan_limit: usize,
    pub max_scan_limit: usize,
    pub max_known_sys_ids: usize,
}

/// What a queue is asked for. Whether the risk threshold is a percentage is
/// told beforehand.
pub struct QueueInput {
    pub group: String,
    pub limit: Option<usize>,
    pub offset: Option<usize>,
    pub scan_limit: Option<usize>,
    pub known_sys_ids: Vec<String>,
    pub threshold_is_percentage: bool,
    pub priorities: Vec<u8>,
    pub opened_after: Option<String>,
    pub opened_before: Option<String>,
    pub updated_since: Option<String>,
    pub updated_before: Option<String>,
    pub stale_before: Option<String>,
    pub stale_only: bool,
}

pub struct ValidatedIncidentQueueInput {
    pub limit: usize,
    pub offset: usize,
    pub scan_limit: usize,
    pub known_sys_ids: Vec<String>,
}

pub open spec fn between(name: Seq<char>, max: usize) -> Seq<char> {
    name + " must be between 1 and "@ + decimal(max as nat)
}

/// Why an optional point in time is refused.
pub open spec fn time_failure(value: Option<Seq<char>>, name: Seq<char>) -> Option<Seq<char>> {
    if value is Some && timestamp_of(trim(value->0)) is None {
        Some(name + " must use YYYY-MM-DD HH:MM:SS"@)
    } else {
        None
    }
}

pub open spec fn bad_priority(priorities: Seq<u8>) -> bool {
    exists|i: int| 0 <= i < priorities.len() && !(1 <= #[trigger] priorities[i] <= 5)
}

/// Why a queue is refused, the first reason first.
pub open spec fn queue_refusal(input: QueueInput, limits: QueueLimits) -> Option<Seq<char>> {
    let limit = chosen(input.limit, limits.default_limit);
    let offset = chosen(input.offset, 0);
    let scan = chosen(input.scan_limit, limits.default_scan_limit);
    if trim(input.group@).len() == 0 {
        Some("group must not be empty"@)
    } else if !(1 <= limit <= limits.max_limit) {
        Some(between("limit"@, limits.max_limit))
    } else if !(1 <= scan <= limits.max_scan_limit) {
        Some(between("scan_limit"@, limits.max_scan_limit))
    } else if offset >= scan {
        Some("offset must be smaller than scan_limit"@)
    } else if input.known_sys_ids@.len() > limits.max_known_sys_ids {
        Some(
            "known_sys_ids must contain at most "@ + decimal(limits.max_known_sys_ids as nat)
                + " entries"@,
        )
    } else if !input.threshold_is_percentage {
        Some("sla_at_risk_percentage must be between 0 and 100"@)
    } else if bad_priority(input.priorities@) {
        Some("priorities must contain only values from 1 through 5"@)
    } else if time_failure(text_of(input.opened_after), "opened_after"@) is Some {
        time_failure(text_of(input.opened_after), "opened_after"@)
    } else if time_failure(text_of(input.opened_before), "opened_before"@) is Some {
        time_failure(text_of(input.opened_before), "opened_before"@)
    } else if time_failure(text_of(input.updated_since), "updated_since"@) is Some {
        time_failure(text_of(input.updated_since), "updated_since"@)
    } else if time_failure(text_of(input.updated_before), "updated_before"@) is Some {
        time_failure(text_of(input.updated_before), "updated_before"@)
    } else if time_failure(text_of(input.stale_before), "stale_before"@) is Some {
        time_failure(text_of(input.stale_before), "stale_before"@)
    } else {
        None
    }
}

/// The known sys_ids in their usual spelling, each once, in the order in which
/// they first come.
pub open spec fn known_ids(values: Seq<Seq<char>>) -> Seq<Seq<char>>
    decreases values.len(),
{
    if values.len() == 0 {
        Seq::empty()
    } else {
        let front = known_ids(values.drop_last());
        match sys_id_of(values.last()) {
            Some(id) => if front.contains(id) {
                front
            } else {
                front.push(id)
            },
            None => front,
        }
    }
}

pub open spec fn all_sys_ids(values: Seq<Seq<char>>) -> bool {
    forall|i: int| 0 <= i < values.len() ==> sys_id_of(#[trigger] values[i]) is Some
}

fn queue_invalid(message: &str) -> (e: QueueError)
    ensures
        e matches QueueError::InvalidParams(m) && m@ == message@,
{
    QueueError::InvalidParams(message.to_owned())
}

fn time_refused(value: &Option<String>, name: &str) -> (r: Option<QueueError>)
    ensures
        match time_failure(text_of(*value), name@) {
            Some(m) => r matches Some(QueueError::InvalidParams(s)) && s@ == m,
            None => r is None,
        },
{
    if let Some(v) = value {
        let trimmed: String = trim_text(v.as_str());
        if parse_timestamp(trimmed.as_str()).is_none() {
            return Some(QueueError::InvalidParams(joined(name, " must use YYYY-MM-DD HH:MM:SS")));
        }
    }
    None
}

fn any_bad_priority(priorities: &Vec<u8>) -> (r: bool)
    ensures
        r == bad_priority(priorities@),
{
    let mut i: usize = 0;
    while i < priorities.len()
        invariant
            i <= priorities@.len(),
            forall|j: int| 0 <= j < i ==> 1 <= #[trigger] priorities@[j] <= 5,
        decreases priorities@.len() - i,
    {
        if !(1 <= priorities[i] && priorities[i] <= 5) {
            assert(!(1 <= priorities@[i as int] <= 5));
            return true;
        }
        i += 1;
    }
    false
}

/// Reads the known sys_ids; one that is none is an error.
fn read_known(values: &Vec<String>) -> (r: Result<Vec<String>, String>)
    ensures
        match r {
            Ok(ids) => all_sys_ids(texts(values@)) && texts(ids@) == known_ids(texts(values@))
                && texts(ids@).no_duplicates(),
            Err(m) => !all_sys_ids(texts(values@)) && m@ == bad_sys_id(),
        },
{
    let ghost all = texts(values@);
    let mut ids: Vec<String> = Vec::new();
    let mut i: usize = 0;
    assert(texts(ids@) =~= Seq::empty());
    assert(all.subrange(0, 0) =~= Seq::empty());
    while i < values.len()
        invariant
            i <= values@.len(),
            all == texts(values@),
            forall|j: int| 0 <= j < i ==> sys_id_of(#[trigger] all[j]) is Some,
            texts(ids@) == known_ids(all.subrange(0, i as int)),
            texts(ids@).no_duplicates(),
        decreases values@.len() - i,
    {
        let ghost longer = all.subrange(0, i + 1);
        assert(longer.drop_last() =~= all.subrange(0, i as int));
        assert(longer.last() == values@[i as int]@);
        assert(all[i as int] == values@[i as int]@);
        let id: String = match normalize_record_lookup_sys_id(values[i].as_str()) {
            Ok(id) => id,
            Err(m) => return Err(m),
        };
        if !list_has(&ids, id.as_str()) {
            let ghost before = ids@;
            ids.push(id);
            proof {
                assert(texts(ids@) =~= texts(before).push(id@));
                crate::record_name_resolver::lemma_push_distinct(texts(before), id@);
            }
        }
        i += 1;
    }
    assert(all.subrange(0, all.len() as int) =~= all);
    Ok(ids)
}

/// Accepts the request for a queue or refuses it.
pub fn validate_incident_queue_input(input: &QueueInput, limits: &QueueLimits) -> (r: Result<
    ValidatedIncidentQueueInput,
    QueueError,
>)
    ensures
        match queue_refusal(*input, *limits) {
            Some(m) => r matches Err(QueueError::InvalidParams(s)) && s@ == m,
            None => if all_sys_ids(texts(input.known_sys_ids@)) {
                r is Ok && ({
                    let v = r->Ok_0;
                    &&& v.limit == chosen(input.limit, limits.default_limit)
                    &&& v.offset == chosen(input.offset, 0)
                    &&& v.scan_limit == chosen(input.scan_limit, limits.default_scan_limit)
                    &&& texts(v.known_sys_ids@) == known_ids(texts(input.known_sys_ids@))
                    &&& texts(v.known_sys_ids@).no_duplicates()
                    &&& v.offset < v.scan_limit
                    &&& v.limit > 0
                })
            } else {
                r matches Err(QueueError::BadSysId(s)) && s@ == bad_sys_id()
            },
        },
{
    let group: String = trim_text(input.group.as_str());
    if group.as_str().is_empty() {
        return Err(queue_invalid("group must not be empty"));
    }
    let limit: usize = match input.limit {
        Some(n) => n,
        None => limits.default_limit,
    };
    if !(1 <= limit && limit <= limits.max_limit) {
        let max: String = decimal_text(limits.max_limit as u64);
        return Err(
            QueueError::InvalidParams(joined3("limit", " must be between 1 and ", max.as_str())),
        );
    }
    let offset: usize = match input.offset {
        Some(n) => n,
        None => 0,
    };
    let scan_limit: usize = match input.scan_limit {
        Some(n) => n,
        None => limits.default_scan_limit,
    };
    if !(1 <= scan_limit && scan_limit <= limits.max_scan_limit) {
        let max: String = decimal_text(limits.max_scan_limit as u64);
        return Err(
            QueueError::InvalidParams(
                joined3("scan_limit", " must be between 1 and ", max.as_str()),
            ),
        );
    }
    if offset >= scan_limit {
        return Err(queue_invalid("offset must be smaller than scan_limit"));
    }
    if input.known_sys_ids.len() > limits.max_known_sys_ids {
        let max: String = decimal_text(limits.max_known_sys_ids as u64);
        return Err(
            QueueError::InvalidParams(
                joined3("known_sys_ids must contain at most ", max.as_str(), " entries"),
            ),
        );
    }
    if !input.threshold_is_percentage {
        return Err(queue_invalid("sla_at_risk_percentage must be between 0 and 100"));
    }
    if any_bad_priority(&input.priorities) {
        return Err(queue_invalid("priorities must contain only values from 1 through 5"));
    }
    if let Some(e) = time_refused(&input.opened_after, "opened_after") {
        return Err(e);
    }
    if let Some(e) = time_refused(&input.opened_before, "opened_before") {
        return Err(e);
    }
    if let Some(e) = time_refused(&input.updated_since, "updated_since") {
        return Err(e);
    }
    if let Some(e) = time_refused(&input.updated_before, "updated_before") {
        return Err(e);
    }
    if let Some(e) = time_refused(&input.stale_before, "stale_before") {
        return Err(e);
    }
    match read_known(&input.known_sys_ids) {
        Ok(known_sys_ids) => Ok(
            ValidatedIncidentQueueInput { limit, offset, scan_limit, known_sys_ids },
        ),
        Err(m) => Err(QueueError::BadSysId(m)),
    }
}

// --- the group ---

pub open spec fn selects(selector: Seq<char>) -> spec_fn(IncidentAssignmentGroup) -> bool {
    |g: IncidentAssignmentGroup|
        same_ignoring_case(g.sys_id@, trim(selector)) || same_ignoring_case(
            g.name@,
            trim(selector),
        )
}

fn copy_group(g: &IncidentAssignmentGroup) -> (r: IncidentAssignmentGroup)
    ensures
        r == *g,
{
    IncidentAssignmentGroup { sys_id: g.sys_id.clone(), name: g.name.clone() }
}

fn copy_groups(groups: &Vec<IncidentAssignmentGroup>) -> (r: Vec<IncidentAssignmentGroup>)
    ensures
        r@ == groups@,
{
    let mut out: Vec<IncidentAssignmentGroup> = Vec::new();
    let mut i: usize = 0;
    while i < groups.len()
        invariant
            i <= groups@.len(),
            out@ == groups@.subrange(0, i as int),
        decreases groups@.len() - i,
    {
        out.push(copy_group(&groups[i]));
        i += 1;
        assert(out@ =~= groups@.subrange(0, i as int));
    }
    assert(out@ =~= groups@);
    out
}

/// The one group that a selector means, by sys_id or by name in any case.
pub fn resolve_incident_queue_group(selector: &str, groups: &Vec<IncidentAssignmentGroup>) -> (r:
    Result<IncidentAssignmentGroup, QueueError>)
    ensures
        ({
            let hits = groups@.filter(selects(selector@));
            if hits.len() == 1 {
                r == Ok::<IncidentAssignmentGroup, QueueError>(hits[0])
            } else if hits.len() == 0 {
                r matches Err(QueueError::GroupNotFound { requested, available }) && requested@
                    == trim(selector@) && available@ == groups@
            } else {
                r matches Err(QueueError::AmbiguousGroup { requested, matches }) && requested@
                    == trim(selector@) && matches@ == hits
            }
        }),
{
    let ghost keep = selects(selector@);
    let wanted: String = trim_text(selector);
    let mut hits: Vec<IncidentAssignmentGroup> = Vec::new();
    let mut i: usize = 0;
    proof {
        crate::listing::lemma_filter_ends(groups@, keep);
    }
    while i < groups.len()
        invariant
            i <= groups@.len(),
            keep == selects(selector@),
            wanted@ == trim(selector@),
            hits@ == groups@.subrange(0, i as int).filter(keep),
        decreases groups@.len() - i,
    {
        proof {
            crate::listing::lemma_filter_step(groups@, keep, i as int);
        }
        if same_any_case(groups[i].sys_id.as_str(), wanted.as_str()) || same_any_case(
            groups[i].name.as_str(),
            wanted.as_str(),
        ) {
            hits.push(copy_group(&groups[i]));
        }
        i += 1;
    }
    proof {
        crate::listing::lemma_filter_ends(groups@, keep);
    }
    if hits.len() == 1 {
        return Ok(hits.remove(0));
    }
    if hits.len() == 0 {
        return Err(
            QueueError::GroupNotFound { requested: wanted, available: copy_groups(groups) },
        );
    }
    Err(QueueError::AmbiguousGroup { requested: wanted, matches: hits })
}

// --- the assignee ---

/// Whose incidents are asked for.
pub enum AssigneeStep {
    Anyone,
    Unassigned,
    /// The caller; who that is must be looked up.
    Me,
    User(String),
    /// Someone whose sys_id must be looked up.
    Lookup(String),
}

pub fn assignee_step(assigned_to: &Option<String>) -> (r: AssigneeStep)
    ensures
        match assigned_to {
            None => r is Anyone,
            Some(s) => {
                let t = trim(s@);
                if t.len() == 0 {
                    r is Anyone
                } else if same_ignoring_case(t, "unassigned"@) {
                    r is Unassigned
                } else if same_ignoring_case(t, "me"@) {
                    r is Me
                } else {
                    match sys_id_of(t) {
                        Some(id) => r matches AssigneeStep::User(u) && u@ == id,
                        None => r matches AssigneeStep::Lookup(u) && u@ == t,
                    }
                }
            },
        },
{
    let selector: String = match assigned_to {
        None => return AssigneeStep::Anyone,
        Some(s) => trim_text(s.as_str()),
    };
    if selector.as_str().is_empty() {
        AssigneeStep::Anyone
    } else if same_any_case(selector.as_str(), "unassigned") {
        AssigneeStep::Unassigned
    } else if same_any_case(selector.as_str(), "me") {
        AssigneeStep::Me
    } else {
        match normalize_record_lookup_sys_id(selector.as_str()) {
            Ok(id) => AssigneeStep::User(id),
            Err(_) => AssigneeStep::Lookup(selector),
        }
    }
}

/// The assignee once every lookup is done.
pub enum ResolvedIncidentAssignee {
    Unassigned,
    User(String),
}

// --- the query ---

pub const INCIDENT_QUEUE_FIELDS: [&'static str; 20] = [
    "sys_id",
    "number",
    "short_description",
    "description",
    "state",
    "priority",
    "impact",
    "urgency",
    "opened_at",
    "assigned_to",
    "assignment_group",
    "caller_id",
    "cmdb_ci",
    "business_service",
    "hold_reason",
    "active",
    "sys_updated_on",
    "sys_mod_count",
    "work_notes",
    "comments",
];

pub open spec fn assignee_condition(q: QueryView, assignee: Option<ResolvedIncidentAssignee>) -> QueryView {
    match assignee {
        None => q,
        Some(ResolvedIncidentAssignee::Unassigned) => q.is_empty("assigned_to"@),
        Some(ResolvedIncidentAssignee::User(id)) => q.equals("assigned_to"@, id@),
    }
}

pub open spec fn priority_texts(priorities: Seq<u8>) -> Seq<Seq<char>> {
    priorities.map_values(|p: u8| decimal(p as nat))
}

/// The point in time before which an incident that was not touched is stale:
/// as asked, or else a day before now.
pub open spec fn stale_cutoff_of(stale_before: Option<Seq<char>>, now: i64) -> Option<Seq<char>> {
    match stale_before {
        Some(t) => Some(t),
        None => if now - 86400 < i64::MIN {
            None
        } else {
            timestamp_text((now - 86400) as i64)
        },
    }
}

pub fn stale_cutoff(stale_before: &Option<String>, now: i64) -> (r: Option<String>)
    ensures
        text_of(r) == stale_cutoff_of(text_of(*stale_before), now),
{
    match stale_before {
        Some(t) => Some(t.clone()),
        None => match now.checked_sub(86400) {
            Some(s) => format_timestamp(s),
            None => None,
        },
    }
}

/// The mark of the moment at which a queue was read.
pub fn watermark(now: i64) -> (r: Option<String>)
    ensures
        text_of(r) == timestamp_text(now),
{
    format_timestamp(now)
}

pub open spec fn queue_plan_of(
    group: Seq<char>,
    input: QueueInput,
    state: Option<Seq<char>>,
    assignee: Option<ResolvedIncidentAssignee>,
    stale_before: Seq<char>,
) -> QueryView {
    let base = QueryView::of("incident"@).fields(names_of(INCIDENT_QUEUE_FIELDS@)).display(
        DisplayMode::Both,
    ).no_links().equals("assignment_group"@, group).equals("active"@, "true"@).ascending(
        "sys_id"@,
    ).no_count().limit(200).when_given("state"@, Operator::Equals, state);
    let times = assignee_condition(base, assignee).in_given(
        "priority"@,
        priority_texts(input.priorities@),
    ).when_given("opened_at"@, Operator::GreaterThan, text_of(input.opened_after)).when_given(
        "opened_at"@,
        Operator::LessThan,
        text_of(input.opened_before),
    ).when_given("sys_updated_on"@, Operator::GreaterThan, text_of(input.updated_since)).when_given(
        "sys_updated_on"@,
        Operator::LessThan,
        text_of(input.updated_before),
    );
    if input.stale_only {
        times.less_than("sys_updated_on"@, stale_before)
    } else {
        times
    }
}

fn priority_strings(priorities: &Vec<u8>) -> (r: Vec<String>)
    ensures
        texts(r@) == priority_texts(priorities@),
{
    let mut out: Vec<String> = Vec::new();
    let mut i: usize = 0;
    while i < priorities.len()
        invariant
            i <= priorities@.len(),
            out@.len() == i,
            forall|j: int|
                0 <= j < i ==> (#[trigger] out@[j])@ == decimal(priorities@[j] as nat),
        decreases priorities@.len() - i,
    {
        out.push(decimal_text(priorities[i] as u64));
        i += 1;
    }
    assert(texts(out@) =~= priority_texts(priorities@));
    out
}

/// The query that scans a group's queue.
pub fn queue_plan(
    group: &str,
    input: &QueueInput,
    state: &Option<String>,
    assignee: &Option<ResolvedIncidentAssignee>,
    stale_before: &str,
) -> (q: Query)
    ensures
        q@ == queue_plan_of(group@, *input, text_of(*state), *assignee, stale_before@),
{
    let fields: Vec<String> = strings_of(&INCIDENT_QUEUE_FIELDS);
    let base: Query = Query::of("incident").fields(&fields).display(
        DisplayMode::Both,
    ).no_links().equals("assignment_group", group).equals("active", "true").ascending(
        "sys_id",
    ).no_count().limit(200).when_given("state", Operator::Equals, state);
    let assigned: Query = match assignee {
        None => base,
        Some(ResolvedIncidentAssignee::Unassigned) => base.is_empty("assigned_to"),
        Some(ResolvedIncidentAssignee::User(id)) => base.equals("assigned_to", id.as_str()),
    };
    let priorities: Vec<String> = priority_strings(&input.priorities);
    let times: Query = assigned.in_given("priority", &priorities).when_given(
        "opened_at",
        Operator::GreaterThan,
        &input.opened_after,
    ).when_given("opened_at", Operator::LessThan, &input.opened_before).when_given(
        "sys_updated_on",
        Operator::GreaterThan,
        &input.updated_since,
    ).when_given("sys_updated_on", Operator::LessThan, &input.updated_before);
    if input.stale_only {
        times.less_than("sys_updated_on", stale_before)
    } else {
        times
    }
}

// --- the scan ---

/// A scan of rows, page by page, up to a limit.
pub struct Scan {
    pub rows: Vec<Row>,
    /// Whether every row there is was read.
    pub complete: bool,
    pub stopped: bool,
}

pub open spec fn shorter(a: int, b: int) -> int {
    if a < b {
        a
    } else {
        b
    }
}

impl Scan {
    pub open spec fn well_formed(self, limit: int) -> bool {
        self.rows@.len() <= limit && (self.complete ==> self.stopped)
    }

    pub fn start() -> (r: Scan)
        ensures
            r.rows@.len() == 0,
            !r.complete,
            !r.stopped,
    {
        Scan { rows: Vec::new(), complete: false, stopped: false }
    }

    /// Whether another page is wanted.
    pub fn wants_page(&self, limit: usize) -> (r: bool)
        ensures
            r == (!self.stopped && self.rows@.len() < limit),
    {
        !self.stopped && self.rows.len() < limit
    }

    /// Takes in a page, or learns that there is none. Rows beyond the limit are
    /// left out, and then the scan is not complete.
    pub fn take(self, page: Option<Vec<Row>>, last: bool, limit: usize) -> (r: Scan)
        requires
            self.well_formed(limit as int),
            !self.stopped,
        ensures
            r.well_formed(limit as int),
            match page {
                None => r.rows == self.rows && r.complete && r.stopped,
                Some(rows) => {
                    let room = limit - self.rows@.len();
                    &&& r.rows@ == self.rows@ + rows@.subrange(
                        0,
                        shorter(rows@.len() as int, room),
                    )
                    &&& r.complete == (rows@.len() <= room && last)
                    &&& r.stopped == (rows@.len() > room || last)
                },
            },
    {
        let mut rows: Vec<Row> = self.rows;
        match page {
            None => Scan { rows, complete: true, stopped: true },
            Some(page) => {
                let room: usize = limit - rows.len();
                let count: usize = page.len();
                let mut page: Vec<Row> = page;
                let ghost before = rows@;
                let ghost brought = page@;
                page.truncate(room);
                assert(page@ =~= brought.subrange(0, shorter(brought.len() as int, room as int)));
                rows.append(&mut page);
                assert(rows@ =~= before + brought.subrange(
                    0,
                    shorter(brought.len() as int, room as int),
                ));
                Scan { rows, complete: count <= room && last, stopped: count > room || last }
            },
        }
    }
}

// --- risk ---

/// How an incident stands towards its agreed times.
#[derive(Clone, Copy, Debug, PartialEq, Eq, Structural)]
pub enum IncidentSlaBucket {
    Unavailable,
    Healthy,
    AtRisk,
    Breached,
}

#[derive(Clone, Copy, Debug, PartialEq, Eq, Structural)]
pub enum IncidentQueueSlaRisk {
    Any,
    Unavailable,
    Healthy,
    AtRisk,
    Breached,
}

impl IncidentSlaBucket {
    pub open spec fn name(self) -> Seq<char> {
        match self {
            IncidentSlaBucket::Unavailable => "unavailable"@,
            IncidentSlaBucket::Healthy => "healthy"@,
            IncidentSlaBucket::AtRisk => "at_risk"@,
            IncidentSlaBucket::Breached => "breached"@,
        }
    }

    pub open spec fn rank(self) -> int {
        match self {
            IncidentSlaBucket::Unavailable => 0,
            IncidentSlaBucket::Healthy => 1,
            IncidentSlaBucket::AtRisk => 2,
            IncidentSlaBucket::Breached => 3,
        }
    }

    pub fn label(self) -> (r: &'static str)
        ensures
            r@ == self.name(),
    {
        match self {
            IncidentSlaBucket::Unavailable => "unavailable",
            IncidentSlaBucket::Healthy => "healthy",
            IncidentSlaBucket::AtRisk => "at_risk",
            IncidentSlaBucket::Breached => "breached",
        }
    }

    pub open spec fn meets(self, filter: IncidentQueueSlaRisk) -> bool {
        match filter {
            IncidentQueueSlaRisk::Any => true,
            IncidentQueueSlaRisk::Unavailable => self is Unavailable,
            IncidentQueueSlaRisk::Healthy => self is Healthy,
            IncidentQueueSlaRisk::AtRisk => self is AtRisk,
            IncidentQueueSlaRisk::Breached => self is Breached,
        }
    }

    pub fn matches(self, filter: IncidentQueueSlaRisk) -> (r: bool)
        ensures
            r == self.meets(filter),
    {
        match filter {
            IncidentQueueSlaRisk::Any => true,
            IncidentQueueSlaRisk::Unavailable => matches!(self, IncidentSlaBucket::Unavailable),
            IncidentQueueSlaRisk::Healthy => matches!(self, IncidentSlaBucket::Healthy),
            IncidentQueueSlaRisk::AtRisk => matches!(self, IncidentSlaBucket::AtRisk),
            IncidentQueueSlaRisk::Breached => matches!(self, IncidentSlaBucket::Breached),
        }
    }

    pub fn rank_number(self) -> (r: u8)
        ensures
            r == self.rank(),
    {
        match self {
            IncidentSlaBucket::Unavailable => 0,
            IncidentSlaBucket::Healthy => 1,
            IncidentSlaBucket::AtRisk => 2,
            IncidentSlaBucket::Breached => 3,
        }
    }
}

/// How an incident stands: unreadable times say nothing, a breach outweighs
/// everything else, and `at_threshold` tells whether the highest share of the time
/// used up has reached the threshold.
pub fn incident_sla_bucket(readable: bool, breached: usize, at_threshold: bool) -> (r:
    IncidentSlaBucket)
    ensures
        r == (if !readable {
            IncidentSlaBucket::Unavailable
        } else if breached > 0 {
            IncidentSlaBucket::Breached
        } else if at_threshold {
            IncidentSlaBucket::AtRisk
        } else {
            IncidentSlaBucket::Healthy
        }),
{
    if !readable {
        IncidentSlaBucket::Unavailable
    } else if breached > 0 {
        IncidentSlaBucket::Breached
    } else if at_threshold {
        IncidentSlaBucket::AtRisk
    } else {
        IncidentSlaBucket::Healthy
    }
}

} // verus!
