use snow_core::choices::{FieldChoice, IncidentAssignmentGroupListError};
use snow_core::groups::incident_assignment_groups;
use snow_core::incident_queue::{
    incident_sla_bucket, IncidentQueueSlaRisk, QueueError, QueueInput, QueueLimits,
};
use snow_core::query::{Operator, Query};
use snow_core::queue_answer::QueueStanding;
use snow_core::queue_call::{QueueAsk, QueueCall, QueueFault, QueueNeed, QueueOutcome, QueueStage};
use snow_core::queue_items::{Count, IncidentQueueSortBy, IncidentQueueSortDirection};
use snow_core::row::{Cell, Row};

const GROUP: &str = "0000000000000000000000000000ab01";
const USER: &str = "0000000000000000000000000000ac01";
const ONE: &str = "0000000000000000000000000000ae01";
const TWO: &str = "0000000000000000000000000000ae02";
const NOW: i64 = 1786960000;

fn s(text: &str) -> String {
    text.to_string()
}

fn cell(name: &str, raw: &str, display: &str) -> Cell {
    Cell {
        name: s(name),
        raw: Some(s(raw)),
        display: Some(s(display)),
        other: None,
    }
}

fn row(table: &str, sys_id: &str, cells: Vec<Cell>) -> Row {
    Row {
        table: s(table),
        sys_id: s(sys_id),
        cells,
    }
}

fn membership(id: &str, group: &str, name: &str, active: &str) -> Row {
    row(
        "sys_user_grmember",
        id,
        vec![
            cell("group", group, name),
            cell("group.name", name, name),
            cell("group.active", active, active),
        ],
    )
}

fn incident(sys_id: &str, number: &str, state: (&str, &str), priority: &str, updated: &str) -> Row {
    row(
        "incident",
        sys_id,
        vec![
            cell("number", number, number),
            cell("state", state.0, state.1),
            cell("priority", priority, priority),
            cell("opened_at", "2026-08-17 08:00:00", "2026-08-17 08:00:00"),
            cell("sys_updated_on", updated, updated),
            cell("active", "true", "true"),
            cell("assignment_group", GROUP, "Example Operations"),
        ],
    )
}

fn limits() -> QueueLimits {
    QueueLimits {
        default_limit: 50,
        max_limit: 200,
        default_scan_limit: 500,
        max_scan_limit: 2000,
        max_known_sys_ids: 500,
    }
}

fn ask(group: &str) -> QueueAsk {
    QueueAsk {
        filters: QueueInput {
            group: s(group),
            limit: Some(10),
            offset: None,
            scan_limit: None,
            known_sys_ids: Vec::new(),
            threshold_is_percentage: true,
            priorities: Vec::new(),
            opened_after: None,
            opened_before: None,
            updated_since: Some(s("2026-08-17 08:00:00")),
            updated_before: None,
            stale_before: None,
            stale_only: false,
        },
        state: None,
        assigned_to: None,
        risk: IncidentQueueSlaRisk::Any,
        sort_by: IncidentQueueSortBy::SlaRisk,
        direction: IncidentQueueSortDirection::Desc,
    }
}

fn started(ask: QueueAsk) -> QueueCall {
    match QueueCall::start(ask, &limits(), vec![s("closed")], NOW) {
        Ok(call) => call,
        Err(e) => panic!("{:?}", e),
    }
}

fn in_group(ask: QueueAsk) -> QueueCall {
    let rows = vec![membership("m1", GROUP, "Example Operations", "true")];
    match started(ask).take_memberships(&rows) {
        Ok(call) => call,
        Err(e) => panic!("{:?}", e),
    }
}

fn scan_query(call: &QueueCall) -> &Query {
    match &call.stage {
        QueueStage::Scan { query, .. } => query,
        _ => panic!("not scanning"),
    }
}

fn has(q: &Query, field: &str, operator: Operator, value: &str) -> bool {
    q.conditions
        .iter()
        .any(|c| c.field == field && c.operator == operator && c.value == value)
}

fn count_of(list: &[Count], key: &str) -> Option<usize> {
    list.iter().find(|c| c.key == key).map(|c| c.count)
}

fn outcome(call: QueueCall) -> QueueOutcome {
    match call.stage {
        QueueStage::Done(outcome) => outcome,
        _ => panic!("not answered"),
    }
}

#[test]
fn incident_assignment_group_operations_discovers_active_memberships() {
    let rows = vec![
        membership("0000000000000000000000000000ad01", GROUP, "Example Operations", "true"),
        membership(
            "0000000000000000000000000000ad02",
            "0000000000000000000000000000ab02",
            "Retired Operations",
            "false",
        ),
    ];
    let groups = incident_assignment_groups(&rows);
    assert_eq!(groups.len(), 1);
    assert_eq!(groups[0].sys_id, GROUP);
    assert_eq!(groups[0].name, "Example Operations");
}

#[test]
fn incident_assignment_group_operations_returns_triage_context_and_handoff_counts() {
    let departed = "0000000000000000000000000000d001";
    let mut asked = ask("example operations");
    asked.filters.known_sys_ids = vec![s(departed)];
    let call = in_group(asked);
    assert!(matches!(call.request(), QueueNeed::Page));
    let q = scan_query(&call);
    assert!(has(q, "assignment_group", Operator::Equals, GROUP));
    assert!(has(q, "active", Operator::Equals, "true"));
    assert!(has(q, "sys_updated_on", Operator::GreaterThan, "2026-08-17 08:00:00"));

    let rows = vec![
        incident(ONE, "INC0000101", ("1", "New"), "3", "2026-08-17 08:30:00"),
        incident(TWO, "INC0000102", ("2", "In Progress"), "1", "2026-08-17 08:40:00"),
    ];
    let call = call.take_page(Some(rows), true);
    match call.request() {
        QueueNeed::Standings { parents } => {
            assert_eq!(parents.len(), 2);
            assert_eq!(parents[0].record_number, "INC0000101");
            assert_eq!(parents[1].record_sys_id, TWO);
            assert_eq!(parents[1].record_table, "incident");
        }
        _ => panic!("standings are due"),
    }
    let standings = vec![
        QueueStanding { sys_id: s(ONE), bucket: incident_sla_bucket(true, 1, true) },
        QueueStanding { sys_id: s(TWO), bucket: incident_sla_bucket(true, 0, true) },
    ];
    let call = call.take_standings(&vec![None, Some(s("Example Operator"))], &standings);
    match call.request() {
        QueueNeed::Known { queries } => {
            assert_eq!(queries.len(), 1);
            assert!(has(&queries[0], "sys_id", Operator::In, departed));
        }
        _ => panic!("known incidents are due"),
    }
    let elsewhere = row(
        "incident",
        departed,
        vec![
            cell("state", "2", "In Progress"),
            cell("active", "true", "true"),
            cell("assignment_group", "0000000000000000000000000000d999", "Another Group"),
        ],
    );
    let call = call.take_known(&vec![elsewhere]);
    assert!(matches!(call.request(), QueueNeed::Nothing));
    let page = outcome(call);
    assert_eq!(page.group.sys_id, GROUP);
    assert_eq!(page.page.items.len(), 2);
    let first = &page.page.items[0];
    assert_eq!(page.rows[first.position].get_raw("number"), Some("INC0000101"));
    assert_eq!(count_of(&page.counts.by_priority, "1"), Some(1));
    assert_eq!(count_of(&page.counts.by_priority, "3"), Some(1));
    assert_eq!(count_of(&page.counts.by_sla_risk, "breached"), Some(1));
    assert_eq!(count_of(&page.counts.by_sla_risk, "at_risk"), Some(1));
    assert_eq!(page.counts.unassigned, 1);
    assert!(page.scan_complete);
    assert!(page.page.complete);
    assert_eq!(page.rows_scanned, 2);
    assert_eq!(page.departed_sys_ids, vec![s(departed)]);
    assert_eq!(page.watermark, "2026-08-17 09:46:40");
}

#[test]
fn a_queue_is_refused_before_anything_is_asked() {
    let mut asked = ask("x");
    asked.filters.limit = Some(0);
    match QueueCall::start(asked, &limits(), Vec::new(), NOW) {
        Err(QueueFault::Queue(QueueError::InvalidParams(m))) => {
            assert_eq!(m, "limit must be between 1 and 200")
        }
        _ => panic!("was not refused"),
    }
    let mut asked = ask("x");
    asked.filters.known_sys_ids = vec![s("x")];
    assert!(matches!(
        QueueCall::start(asked, &limits(), Vec::new(), NOW),
        Err(QueueFault::Queue(QueueError::BadSysId(_)))
    ));
    assert!(matches!(
        QueueCall::start(ask("x"), &limits(), Vec::new(), i64::MAX),
        Err(QueueFault::NoDate)
    ));
}

#[test]
fn only_groups_of_the_user_have_a_queue() {
    let rows = vec![membership("m1", GROUP, "Example Operations", "true")];
    match started(ask("Others")).take_memberships(&rows) {
        Err(QueueFault::Queue(QueueError::GroupNotFound { requested, available })) => {
            assert_eq!(requested, "Others");
            assert_eq!(available.len(), 1);
        }
        _ => panic!("was found"),
    }
    let twins = vec![
        membership("m1", GROUP, "Operations", "true"),
        membership("m2", "0000000000000000000000000000ab02", "operations", "true"),
    ];
    match started(ask("OPERATIONS")).take_memberships(&twins) {
        Err(QueueFault::Queue(QueueError::AmbiguousGroup { matches, .. })) => {
            assert_eq!(matches.len(), 2)
        }
        _ => panic!("was found"),
    }
}

#[test]
fn a_state_is_looked_up_before_the_scan() {
    let mut asked = ask(GROUP);
    asked.state = Some(s("in progress"));
    let call = in_group(asked);
    assert!(matches!(call.request(), QueueNeed::Choices));
    let choices = vec![
        FieldChoice { value: s("1"), label: s("New"), terminal: false },
        FieldChoice { value: s("2"), label: s("In Progress"), terminal: false },
    ];
    match call.take_choices(&choices) {
        Ok(call) => assert!(has(scan_query(&call), "state", Operator::Equals, "2")),
        Err(e) => panic!("{:?}", e),
    }
    let mut asked = ask(GROUP);
    asked.state = Some(s("gone"));
    assert!(matches!(
        in_group(asked).take_choices(&choices),
        Err(QueueFault::State(IncidentAssignmentGroupListError::UnresolvedState {
            ambiguous: false,
            ..
        }))
    ));
}

#[test]
fn a_person_is_looked_up_where_one_is_named() {
    let with = |name: &str| {
        let mut asked = ask(GROUP);
        asked.assigned_to = Some(s(name));
        in_group(asked)
    };
    assert!(has(scan_query(&with(" Unassigned ")), "assigned_to", Operator::IsEmpty, ""));
    assert!(has(scan_query(&with(USER)), "assigned_to", Operator::Equals, USER));
    assert!(!scan_query(&with("  ")).conditions.iter().any(|c| c.field == "assigned_to"));
    assert!(matches!(with("ME").request(), QueueNeed::Person { name: None }));
    let named = with(" Ada ");
    assert!(matches!(named.request(), QueueNeed::Person { name: Some(n) } if n == "Ada"));
    let call = named.take_person(s(USER));
    assert!(has(scan_query(&call), "assigned_to", Operator::Equals, USER));
}

#[test]
fn a_scan_stops_at_its_limit_and_keeps_open_work() {
    let mut asked = ask(GROUP);
    asked.filters.scan_limit = Some(3);
    asked.filters.limit = Some(1);
    let call = in_group(asked);
    let first = vec![
        incident("a", "INC1", ("1", "New"), "2", "2026-08-17 08:30:00"),
        incident("b", "INC2", ("7", "Closed"), "2", "2026-08-17 08:30:00"),
    ];
    let call = call.take_page(Some(first), false);
    assert!(matches!(call.request(), QueueNeed::Page));
    let second = vec![
        incident("c", "INC3", ("1", "New"), "1", "2026-08-17 08:30:00"),
        incident("d", "INC4", ("1", "New"), "1", "2026-08-17 08:30:00"),
    ];
    let call = call.take_page(Some(second), true);
    let call = call.take_standings(&vec![None, None], &Vec::new());
    match call.request() {
        QueueNeed::Known { queries } => assert!(queries.is_empty()),
        _ => panic!("known incidents are due"),
    }
    let page = outcome(call.take_known(&Vec::new()));
    let ids: Vec<&str> = page.rows.iter().map(|r| r.sys_id.as_str()).collect();
    assert_eq!(ids, vec!["a", "c"]);
    assert_eq!(page.rows_scanned, 3);
    assert!(!page.scan_complete);
    assert_eq!(page.page.items.len(), 1);
    assert_eq!(page.page.next_offset, Some(1));
    assert!(!page.page.complete);
    assert!(page.departed_sys_ids.is_empty());
}

#[test]
fn a_scan_without_another_page_is_complete() {
    let call = in_group(ask(GROUP)).take_page(None, true);
    let page = outcome(call.take_standings(&Vec::new(), &Vec::new()).take_known(&Vec::new()));
    assert!(page.scan_complete);
    assert!(page.page.complete);
    assert_eq!(page.rows_scanned, 0);
    assert_eq!(page.counts.unassigned, 0);
}
