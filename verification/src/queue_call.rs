//! Reading the queue of a group, from the request to the answer: the group is one of
//! the user's, the state and the person asked for are looked up where they are named,
//! the incidents are scanned, and what became of known incidents is told.
use vstd::pervasive::unreached;
use vstd::prelude::*;
use vstd::string::*;

use crate::choices::{
    choice_views, meant, resolve_incident_state, FieldChoice, IncidentAssignmentGroupListError,
};
use crate::groups::{group_views, groups_in_order, groups_of, incident_assignment_groups};
use crate::incident_queue::{
    all_sys_ids, assignee_step, known_ids, queue_plan, queue_plan_of, queue_refusal,
    resolve_incident_queue_group, selects, shorter, stale_cutoff, stale_cutoff_of,
    validate_incident_queue_input, watermark, AssigneeStep, IncidentAssignmentGroup,
    IncidentQueueSlaRisk, QueueError, QueueInput, QueueLimits, ResolvedIncidentAssignee, Scan,
    ValidatedIncidentQueueInput,
};
use crate::listing::ascending;
use crate::number::chosen;
use crate::query::{query_views, Query};
use crate::queue_answer::{
    answers_keep_to_the_risk, are_items_of, is_answer, queue_answer, queue_items, QueueRequest, QueueStanding,
};
use crate::queue_items::{
    departure_queries, departure_queries_of, has_left, incident_departures, IncidentQueueSortBy,
    IncidentQueueSortDirection, QueueAggregates, QueueItem, QueuePage,
};
use crate::row::{row_views, Row};
use crate::sla::TaskSlaParentRef;
use crate::tables::{bad_sys_id, sys_id_of};
use crate::text::{or_empty, owned_or_empty, same_ignoring_case, text_of, texts, trim};
use crate::timestamp::timestamp_text;
use crate::work::{keep_open, open_rows};

verus! {

/// What is asked of a queue.
pub struct QueueAsk {
    pub filters: QueueInput,
    pub state: Option<String>,
    pub assigned_to: Option<String>,
    pub risk: IncidentQueueSlaRisk,
    pub sort_by: IncidentQueueSortBy,
    pub direction: IncidentQueueSortDirection,
}

/// Why a queue is not answered.
#[derive(Debug)]
pub enum QueueFault {
    Queue(QueueError),
    State(IncidentAssignmentGroupListError),
    /// The clock shows no date.
    NoDate,
}

/// The answer on a queue. The items find their rows by position.
pub struct QueueOutcome {
    pub group: IncidentAssignmentGroup,
    pub rows: Vec<Row>,
    pub page: QueuePage,
    pub counts: QueueAggregates,
    pub rows_scanned: usize,
    pub scan_complete: bool,
    pub watermark: String,
    pub departed_sys_ids: Vec<String>,
}

pub enum QueueStage {
    Groups,
    State { group: IncidentAssignmentGroup },
    /// The user is looked up by a name, or is the one who asks.
    Person { group: IncidentAssignmentGroup, state: Option<String>, name: Option<String> },
    Scan { group: IncidentAssignmentGroup, query: Query, scan: Scan },
    Standings {
        group: IncidentAssignmentGroup,
        rows: Vec<Row>,
        rows_scanned: usize,
        scan_complete: bool,
    },
    Departures {
        group: IncidentAssignmentGroup,
        rows: Vec<Row>,
        page: QueuePage,
        counts: QueueAggregates,
        rows_scanned: usize,
        scan_complete: bool,
    },
    Done(QueueOutcome),
}

/// A queue that is being read.
pub struct QueueCall {
    pub ask: QueueAsk,
    pub terminal: Vec<String>,
    pub bounds: ValidatedIncidentQueueInput,
    pub watermark: String,
    pub stale_before: String,
    pub stage: QueueStage,
}

/// What is needed next.
pub enum QueueNeed {
    /// The memberships of the user who asks.
    Memberships,
    /// The choices of the states of incidents.
    Choices,
    /// The user of a name, or the one who asks.
    Person { name: Option<String> },
    /// The next page of a query.
    Page,
    /// How the incidents stand with their service levels, and whom they are assigned to.
    Standings { parents: Vec<TaskSlaParentRef> },
    /// The rows of known incidents.
    Known { queries: Vec<Query> },
    Nothing,
}

/// The call goes on: only its stage is another.
pub open spec fn goes_on(call: QueueCall, next: QueueCall) -> bool {
    next == (QueueCall { stage: next.stage, ..call })
}

pub open spec fn asked_person(assigned_to: Option<Seq<char>>) -> Option<Seq<char>> {
    match assigned_to {
        Some(t) => if trim(t).len() == 0 {
            None
        } else {
            Some(trim(t))
        },
        None => None,
    }
}

/// The scan of a group's queue begins.
pub open spec fn scan_begins(
    call: QueueCall,
    group: IncidentAssignmentGroup,
    state: Option<Seq<char>>,
    assignee: Option<ResolvedIncidentAssignee>,
    next: QueueCall,
) -> bool {
    &&& goes_on(call, next)
    &&& next.stage matches QueueStage::Scan { group: g, query, scan }
    &&& g == group
    &&& query@ == queue_plan_of(
        group.sys_id@,
        call.ask.filters,
        state,
        assignee,
        call.stale_before@,
    )
    &&& scan.rows@.len() == 0
    &&& !scan.complete
    &&& !scan.stopped
}

/// The user is to be looked up.
pub open spec fn person_wanted(
    call: QueueCall,
    group: IncidentAssignmentGroup,
    state: Option<Seq<char>>,
    name: Option<Seq<char>>,
    next: QueueCall,
) -> bool {
    &&& goes_on(call, next)
    &&& next.stage matches QueueStage::Person { group: g, state: s, name: n }
    &&& g == group
    &&& text_of(s) == state
    &&& text_of(n) == name
}

/// Once group and state are known: whom the incidents are to be assigned to.
pub open spec fn after_state(
    call: QueueCall,
    group: IncidentAssignmentGroup,
    state: Option<Seq<char>>,
    next: QueueCall,
) -> bool {
    match asked_person(text_of(call.ask.assigned_to)) {
        None => scan_begins(call, group, state, None, next),
        Some(t) => if same_ignoring_case(t, "unassigned"@) {
            scan_begins(call, group, state, Some(ResolvedIncidentAssignee::Unassigned), next)
        } else if same_ignoring_case(t, "me"@) {
            person_wanted(call, group, state, None, next)
        } else {
            match sys_id_of(t) {
                Some(id) => exists|user: String|
                    user@ == id && #[trigger] scan_begins(
                        call,
                        group,
                        state,
                        Some(ResolvedIncidentAssignee::User(user)),
                        next,
                    ),
                None => person_wanted(call, group, state, Some(t), next),
            }
        },
    }
}

/// What comes after the state does not depend on the stage before.
proof fn lemma_any_stage(
    a: QueueCall,
    b: QueueCall,
    group: IncidentAssignmentGroup,
    state: Option<Seq<char>>,
    next: QueueCall,
)
    requires
        goes_on(a, b),
        after_state(b, group, state, next),
    ensures
        after_state(a, group, state, next),
{
    if let Some(t) = asked_person(text_of(a.ask.assigned_to)) {
        if !same_ignoring_case(t, "unassigned"@) && !same_ignoring_case(t, "me"@) {
            if let Some(id) = sys_id_of(t) {
                let user = choose|user: String|
                    user@ == id && #[trigger] scan_begins(
                        b,
                        group,
                        state,
                        Some(ResolvedIncidentAssignee::User(user)),
                        next,
                    );
                assert(scan_begins(
                    a,
                    group,
                    state,
                    Some(ResolvedIncidentAssignee::User(user)),
                    next,
                ));
            }
        }
    }
}

/// The groups of some memberships, in their order.
pub open spec fn are_groups_of(groups: Seq<IncidentAssignmentGroup>, rows: Seq<Row>) -> bool {
    &&& groups_in_order(group_views(groups))
    &&& group_views(groups).to_multiset() == groups_of(row_views(rows)).to_multiset()
}

/// What comes of a list of groups: exactly one of them must be the one asked for.
pub open spec fn after_groups(
    call: QueueCall,
    groups: Seq<IncidentAssignmentGroup>,
    r: Result<QueueCall, QueueFault>,
) -> bool {
    let selector = call.ask.filters.group@;
    let hits = groups.filter(selects(selector));
    if hits.len() == 1 {
        match r {
            Ok(next) => if call.ask.state is Some {
                goes_on(call, next) && next.stage == (QueueStage::State { group: hits[0] })
            } else {
                after_state(call, hits[0], None, next)
            },
            Err(_) => false,
        }
    } else if hits.len() == 0 {
        r matches Err(QueueFault::Queue(QueueError::GroupNotFound { requested, available }))
            && requested@ == trim(selector) && available@ == groups
    } else {
        r matches Err(QueueFault::Queue(QueueError::AmbiguousGroup { requested, matches }))
            && requested@ == trim(selector) && matches@ == hits
    }
}

/// A page is taken in: the scan goes on, or the open ones among the rows are what
/// the queue holds.
pub open spec fn after_page(
    call: QueueCall,
    group: IncidentAssignmentGroup,
    query: Query,
    before: Scan,
    page: Option<Seq<Row>>,
    last: bool,
    next: QueueCall,
) -> bool {
    let limit = call.bounds.scan_limit as int;
    let (rows, complete, stopped) = match page {
        None => (before.rows@, true, true),
        Some(brought) => {
            let room = limit - before.rows@.len();
            (
                before.rows@ + brought.subrange(0, shorter(brought.len() as int, room)),
                brought.len() <= room && last,
                brought.len() > room || last,
            )
        },
    };
    &&& goes_on(call, next)
    &&& if !stopped && rows.len() < limit {
        next.stage matches QueueStage::Scan { group: g, query: q, scan } && g == group && q == query
            && scan.rows@ == rows && scan.complete == complete && scan.stopped == stopped
    } else {
        next.stage matches QueueStage::Standings {
            group: g,
            rows: open,
            rows_scanned,
            scan_complete,
        } && g == group && row_views(open@) == row_views(rows).filter(
            open_rows(texts(call.terminal@)),
        ) && rows_scanned == rows.len() && scan_complete == complete
    }
}

/// What the queue is asked for, once it is scanned.
pub open spec fn request_of(call: QueueCall, scan_complete: bool, request: QueueRequest) -> bool {
    &&& request.risk == call.ask.risk
    &&& request.sort_by == call.ask.sort_by
    &&& request.direction == call.ask.direction
    &&& request.stale_before@ == call.stale_before@
    &&& request.offset == call.bounds.offset
    &&& request.limit == call.bounds.limit
    &&& request.scan_complete == scan_complete
}

/// The standings are taken in: the items are made, and a page of them is answered with.
pub open spec fn after_standings(
    call: QueueCall,
    assignees: Seq<Option<String>>,
    list: Seq<QueueStanding>,
    items: Seq<QueueItem>,
    sorted: Seq<QueueItem>,
    request: QueueRequest,
    next: QueueCall,
) -> bool {
    &&& goes_on(call, next)
    &&& call.stage matches QueueStage::Standings { group, rows, rows_scanned, scan_complete }
    &&& next.stage matches QueueStage::Departures {
        group: g,
        rows: kept,
        page,
        counts,
        rows_scanned: scanned,
        scan_complete: complete,
    }
    &&& g == group && kept == rows && scanned == rows_scanned && complete == scan_complete
    &&& are_items_of(items, rows@, assignees, list)
    &&& request_of(call, scan_complete, request)
    &&& is_answer(page, counts, sorted, items, request)
}

/// The rows of the known incidents are taken in: the answer is complete.
pub open spec fn after_departures(call: QueueCall, found: Seq<Row>, next: QueueCall) -> bool {
    &&& goes_on(call, next)
    &&& call.stage matches QueueStage::Departures {
        group,
        rows,
        page,
        counts,
        rows_scanned,
        scan_complete,
    }
    &&& next.stage matches QueueStage::Done(outcome)
    &&& outcome.group == group && outcome.rows == rows && outcome.page == page && outcome.counts
        == counts && outcome.rows_scanned == rows_scanned && outcome.scan_complete == scan_complete
    &&& outcome.watermark@ == call.watermark@
    &&& ascending(texts(outcome.departed_sys_ids@))
    &&& forall|id: Seq<char>| #[trigger]
        texts(outcome.departed_sys_ids@).contains(id) <==> texts(
            call.bounds.known_sys_ids@,
        ).contains(id) && has_left(row_views(found), group.sys_id@, texts(call.terminal@))(id)
}

/// How a call begins.
pub open spec fn begins(
    ask: QueueAsk,
    limits: QueueLimits,
    terminal: Vec<String>,
    now: i64,
    r: Result<QueueCall, QueueFault>,
) -> bool {
    match queue_refusal(ask.filters, limits) {
        Some(m) => r matches Err(QueueFault::Queue(QueueError::InvalidParams(s))) && s@ == m,
        None => if !all_sys_ids(texts(ask.filters.known_sys_ids@)) {
            r matches Err(QueueFault::Queue(QueueError::BadSysId(s))) && s@ == bad_sys_id()
        } else if timestamp_text(now) is None || stale_cutoff_of(
            text_of(ask.filters.stale_before),
            now,
        ) is None {
            r matches Err(QueueFault::NoDate)
        } else {
            r matches Ok(call) && {
                &&& call.well_formed()
                &&& call.ask == ask
                &&& call.terminal == terminal
                &&& call.stage is Groups
                &&& call.bounds.limit == chosen(ask.filters.limit, limits.default_limit)
                &&& call.bounds.offset == chosen(ask.filters.offset, 0)
                &&& call.bounds.scan_limit == chosen(
                    ask.filters.scan_limit,
                    limits.default_scan_limit,
                )
                &&& texts(call.bounds.known_sys_ids@) == known_ids(
                    texts(ask.filters.known_sys_ids@),
                )
                &&& Some(call.watermark@) == timestamp_text(now)
                &&& Some(call.stale_before@) == stale_cutoff_of(
                    text_of(ask.filters.stale_before),
                    now,
                )
            }
        },
    }
}

/// The records whose standings are asked for.
pub open spec fn are_parents_of(parents: Seq<TaskSlaParentRef>, rows: Seq<Row>) -> bool {
    parents.len() == rows.len() && forall|i: int|
        0 <= i < rows.len() ==> {
            &&& (#[trigger] parents[i]).record_sys_id@ == rows[i].sys_id@
            &&& parents[i].record_table@ == "incident"@
            &&& parents[i].record_number@ == or_empty(rows[i]@.shown("number"@))
        }
}

/// What a call needs next.
pub open spec fn needs(call: QueueCall, r: QueueNeed) -> bool {
    match call.stage {
        QueueStage::Groups => r is Memberships,
        QueueStage::State { group } => r is Choices,
        QueueStage::Person { group, state, name } => r matches QueueNeed::Person { name: n }
            && text_of(n) == text_of(name),
        QueueStage::Scan { group, query, scan } => r is Page,
        QueueStage::Standings { group, rows, rows_scanned, scan_complete } => r matches
            QueueNeed::Standings { parents } && are_parents_of(parents@, rows@),
        QueueStage::Departures { .. } => r matches QueueNeed::Known { queries } && query_views(
            queries@,
        ) == departure_queries_of(texts(call.bounds.known_sys_ids@)),
        QueueStage::Done(_) => r is Nothing,
    }
}

fn parents_of(rows: &Vec<Row>) -> (r: Vec<TaskSlaParentRef>)
    ensures
        are_parents_of(r@, rows@),
{
    let mut out: Vec<TaskSlaParentRef> = Vec::new();
    let mut i: usize = 0;
    while i < rows.len()
        invariant
            i <= rows@.len(),
            out@.len() == i,
            forall|k: int|
                0 <= k < i ==> {
                    &&& (#[trigger] out@[k]).record_sys_id@ == rows@[k].sys_id@
                    &&& out@[k].record_table@ == "incident"@
                    &&& out@[k].record_number@ == or_empty(rows@[k]@.shown("number"@))
                },
        decreases rows@.len() - i,
    {
        out.push(
            TaskSlaParentRef {
                record_number: owned_or_empty(rows[i].get_str("number")),
                record_table: "incident".to_owned(),
                record_sys_id: rows[i].sys_id.clone(),
            },
        );
        i += 1;
    }
    out
}

impl QueueCall {
    /// A scan under way is within its limit and not over.
    pub open spec fn well_formed(self) -> bool {
        self.stage matches QueueStage::Scan { group, query, scan } ==> scan.well_formed(
            self.bounds.scan_limit as int,
        ) && !scan.stopped
    }

    /// Begins the reading of a queue. `terminal` are the states of work that is done.
    pub fn start(ask: QueueAsk, limits: &QueueLimits, terminal: Vec<String>, now: i64) -> (r: Result<
        QueueCall,
        QueueFault,
    >)
        ensures
            begins(ask, *limits, terminal, now, r),
    {
        let bounds: ValidatedIncidentQueueInput = match validate_incident_queue_input(
            &ask.filters,
            limits,
        ) {
            Ok(b) => b,
            Err(e) => {
                return Err(QueueFault::Queue(e));
            },
        };
        match (watermark(now), stale_cutoff(&ask.filters.stale_before, now)) {
            (Some(mark), Some(stale_before)) => Ok(
                QueueCall {
                    ask,
                    terminal,
                    bounds,
                    watermark: mark,
                    stale_before,
                    stage: QueueStage::Groups,
                },
            ),
            _ => Err(QueueFault::NoDate),
        }
    }

    pub fn request(&self) -> (r: QueueNeed)
        ensures
            needs(*self, r),
    {
        match &self.stage {
            QueueStage::Groups => QueueNeed::Memberships,
            QueueStage::State { group } => QueueNeed::Choices,
            QueueStage::Person { group, state, name } => QueueNeed::Person {
                name: match name {
                    Some(n) => Some(n.clone()),
                    None => None,
                },
            },
            QueueStage::Scan { group, query, scan } => QueueNeed::Page,
            QueueStage::Standings { group, rows, rows_scanned, scan_complete } => {
                QueueNeed::Standings { parents: parents_of(rows) }
            },
            QueueStage::Departures { group, rows, page, counts, rows_scanned, scan_complete } => {
                QueueNeed::Known { queries: departure_queries(&self.bounds.known_sys_ids) }
            },
            QueueStage::Done(_) => QueueNeed::Nothing,
        }
    }

    fn scan_of(
        self,
        group: IncidentAssignmentGroup,
        state: Option<String>,
        assignee: Option<ResolvedIncidentAssignee>,
    ) -> (r: QueueCall)
        ensures
            r.well_formed(),
            scan_begins(self, group, text_of(state), assignee, r),
    {
        let query: Query = queue_plan(
            group.sys_id.as_str(),
            &self.ask.filters,
            &state,
            &assignee,
            self.stale_before.as_str(),
        );
        let mut next: QueueCall = self;
        next.stage = QueueStage::Scan { group, query, scan: Scan::start() };
        next
    }

    fn with_state(self, group: IncidentAssignmentGroup, state: Option<String>) -> (r: QueueCall)
        ensures
            r.well_formed(),
            after_state(self, group, text_of(state), r),
    {
        match assignee_step(&self.ask.assigned_to) {
            AssigneeStep::Anyone => self.scan_of(group, state, None),
            AssigneeStep::Unassigned => self.scan_of(
                group,
                state,
                Some(ResolvedIncidentAssignee::Unassigned),
            ),
            AssigneeStep::User(id) => {
                let ghost s = text_of(state);
                let next: QueueCall = self.scan_of(
                    group,
                    state,
                    Some(ResolvedIncidentAssignee::User(id)),
                );
                assert(scan_begins(
                    self,
                    group,
                    s,
                    Some(ResolvedIncidentAssignee::User(id)),
                    next,
                ));
                next
            },
            AssigneeStep::Me => {
                let mut next: QueueCall = self;
                next.stage = QueueStage::Person { group, state, name: None };
                next
            },
            AssigneeStep::Lookup(name) => {
                let mut next: QueueCall = self;
                next.stage = QueueStage::Person { group, state, name: Some(name) };
                next
            },
        }
    }

    /// Takes in the memberships of the user.
    pub fn take_memberships(self, rows: &Vec<Row>) -> (r: Result<QueueCall, QueueFault>)
        requires
            self.stage is Groups,
        ensures
            r is Ok ==> r->Ok_0.well_formed(),
            exists|groups: Seq<IncidentAssignmentGroup>|
                are_groups_of(groups, rows@) && #[trigger] after_groups(self, groups, r),
    {
        let groups: Vec<IncidentAssignmentGroup> = incident_assignment_groups(rows);
        let ghost list = groups@;
        assert(are_groups_of(list, rows@));
        let found: Result<IncidentAssignmentGroup, QueueError> = resolve_incident_queue_group(
            self.ask.filters.group.as_str(),
            &groups,
        );
        let r: Result<QueueCall, QueueFault> = match found {
            Ok(group) => if self.ask.state.is_some() {
                let mut next: QueueCall = self;
                next.stage = QueueStage::State { group };
                Ok(next)
            } else {
                Ok(self.with_state(group, None))
            },
            Err(e) => Err(QueueFault::Queue(e)),
        };
        assert(after_groups(self, list, r));
        r
    }

    /// Takes in the choices of the states.
    pub fn take_choices(self, choices: &Vec<FieldChoice>) -> (r: Result<QueueCall, QueueFault>)
        requires
            self.stage is State,
            self.ask.state is Some,
        ensures
            r is Ok ==> r->Ok_0.well_formed(),
            ({
                let selector = self.ask.state->0@;
                let hits = meant(choice_views(choices@), selector);
                match r {
                    Ok(next) => hits.len() == 1 && after_state(
                        self,
                        self.stage->State_group,
                        Some(hits[0].value),
                        next,
                    ),
                    Err(QueueFault::State(
                        IncidentAssignmentGroupListError::UnresolvedState {
                            requested,
                            ambiguous,
                            choices: offered,
                        },
                    )) => hits.len() != 1 && requested@ == selector && ambiguous == (hits.len() > 1)
                        && offered@ == choices@,
                    Err(_) => false,
                }
            }),
    {
        let mut call: QueueCall = self;
        let mut stage: QueueStage = QueueStage::Groups;
        std::mem::swap(&mut stage, &mut call.stage);
        match (stage, &call.ask.state) {
            (QueueStage::State { group }, Some(selector)) => {
                match resolve_incident_state(selector.as_str(), choices) {
                    Ok(state) => {
                        let ghost value = state.value@;
                        let next: QueueCall = call.with_state(group, Some(state.value));
                        proof {
                            lemma_any_stage(self, call, group, Some(value), next);
                        }
                        Ok(next)
                    },
                    Err(e) => Err(QueueFault::State(e)),
                }
            },
            _ => unreached(),
        }
    }

    /// Takes in the user who was looked up.
    pub fn take_person(self, sys_id: String) -> (r: QueueCall)
        requires
            self.stage is Person,
        ensures
            r.well_formed(),
            scan_begins(
                self,
                self.stage->Person_group,
                text_of(self.stage->Person_state),
                Some(ResolvedIncidentAssignee::User(sys_id)),
                r,
            ),
    {
        let mut call: QueueCall = self;
        let mut stage: QueueStage = QueueStage::Groups;
        std::mem::swap(&mut stage, &mut call.stage);
        match stage {
            QueueStage::Person { group, state, name } => call.scan_of(
                group,
                state,
                Some(ResolvedIncidentAssignee::User(sys_id)),
            ),
            _ => unreached(),
        }
    }

    /// Takes in the next page of the scan, or learns that there is none.
    pub fn take_page(self, page: Option<Vec<Row>>, last: bool) -> (r: QueueCall)
        requires
            self.well_formed(),
            self.stage is Scan,
        ensures
            r.well_formed(),
            after_page(
                self,
                self.stage->Scan_group,
                self.stage->Scan_query,
                self.stage->scan,
                match page {
                    Some(rows) => Some(rows@),
                    None => None,
                },
                last,
                r,
            ),
    {
        let mut call: QueueCall = self;
        let mut stage: QueueStage = QueueStage::Groups;
        std::mem::swap(&mut stage, &mut call.stage);
        let limit: usize = call.bounds.scan_limit;
        match stage {
            QueueStage::Scan { group, query, scan } => {
                let scan: Scan = scan.take(page, last, limit);
                if scan.wants_page(limit) {
                    call.stage = QueueStage::Scan { group, query, scan };
                } else {
                    let rows: Vec<Row> = keep_open(&scan.rows, &call.terminal);
                    call.stage = QueueStage::Standings {
                        group,
                        rows,
                        rows_scanned: scan.rows.len(),
                        scan_complete: scan.complete,
                    };
                }
                call
            },
            _ => unreached(),
        }
    }

    /// Takes in how the incidents stand and the names of those whom they are
    /// assigned to.
    pub fn take_standings(self, assignees: &Vec<Option<String>>, list: &Vec<QueueStanding>) -> (r:
        QueueCall)
        requires
            self.stage is Standings,
            self.stage->Standings_rows@.len() == assignees@.len(),
        ensures
            r.well_formed(),
            exists|items: Seq<QueueItem>, sorted: Seq<QueueItem>, request: QueueRequest| #[trigger]
                after_standings(self, assignees@, list@, items, sorted, request, r),
    {
        let mut call: QueueCall = self;
        let mut stage: QueueStage = QueueStage::Groups;
        std::mem::swap(&mut stage, &mut call.stage);
        match stage {
            QueueStage::Standings { group, rows, rows_scanned, scan_complete } => {
                let items: Vec<QueueItem> = queue_items(&rows, assignees, list);
                let request: QueueRequest = QueueRequest {
                    risk: call.ask.risk,
                    sort_by: call.ask.sort_by,
                    direction: call.ask.direction,
                    stale_before: call.stale_before.clone(),
                    offset: call.bounds.offset,
                    limit: call.bounds.limit,
                    scan_complete,
                };
                let ghost all = items@;
                let r: (QueuePage, QueueAggregates) = queue_answer(items, &request);
                let ghost sorted = choose|sorted: Seq<QueueItem>| #[trigger]
                    is_answer(r.0, r.1, sorted, all, request);
                call.stage = QueueStage::Departures {
                    group,
                    rows,
                    page: r.0,
                    counts: r.1,
                    rows_scanned,
                    scan_complete,
                };
                assert(after_standings(self, assignees@, list@, all, sorted, request, call));
                call
            },
            _ => unreached(),
        }
    }

    /// Takes in the rows of the known incidents.
    pub fn take_known(self, found: &Vec<Row>) -> (r: QueueCall)
        requires
            self.stage is Departures,
        ensures
            r.well_formed(),
            after_departures(self, found@, r),
    {
        let mut call: QueueCall = self;
        let mut stage: QueueStage = QueueStage::Groups;
        std::mem::swap(&mut stage, &mut call.stage);
        match stage {
            QueueStage::Departures { group, rows, page, counts, rows_scanned, scan_complete } => {
                let departed_sys_ids: Vec<String> = incident_departures(
                    &call.bounds.known_sys_ids,
                    found,
                    group.sys_id.as_str(),
                    &call.terminal,
                );
                call.stage = QueueStage::Done(
                    QueueOutcome {
                        group,
                        rows,
                        page,
                        counts,
                        rows_scanned,
                        scan_complete,
                        watermark: call.watermark.clone(),
                        departed_sys_ids,
                    },
                );
                call
            },
            _ => unreached(),
        }
    }
}

/// Every item of the page that a queue is answered with is one of the incidents that the
/// scan kept, found at its position, and of the risk that was asked for.
pub proof fn answered_incidents_were_scanned(
    call: QueueCall,
    assignees: Seq<Option<String>>,
    list: Seq<QueueStanding>,
    items: Seq<QueueItem>,
    sorted: Seq<QueueItem>,
    request: QueueRequest,
    next: QueueCall,
)
    requires
        after_standings(call, assignees, list, items, sorted, request, next),
        call.stage->Standings_rows@.len() <= usize::MAX,
    ensures
        ({
            let rows = call.stage->Standings_rows@;
            let page = next.stage->Departures_page.items@;
            forall|i: int|
                0 <= i < page.len() ==> {
                    &&& (#[trigger] page[i]).bucket.meets(call.ask.risk)
                    &&& page[i].position < rows.len()
                    &&& page[i].sys_id@ == rows[page[i].position as int].sys_id@
                }
        }),
{
    let rows = call.stage->Standings_rows@;
    let page = next.stage->Departures_page;
    answers_keep_to_the_risk(page, next.stage->Departures_counts, sorted, items, request);
    assert forall|i: int| 0 <= i < page.items@.len() implies {
        &&& (#[trigger] page.items@[i]).bucket.meets(call.ask.risk)
        &&& page.items@[i].position < rows.len()
        &&& page.items@[i].sys_id@ == rows[page.items@[i].position as int].sys_id@
    } by {
        let item = page.items@[i];
        assert(items.contains(item));
        let k = choose|k: int| 0 <= k < items.len() && items[k] == item;
        assert(items[k].position == k as usize);
    }
}

} // verus!
