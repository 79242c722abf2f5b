use snow_core::choices::{resolve_incident_state, FieldChoice, IncidentAssignmentGroupListError};
use snow_core::groups::{
    incident_assignment_groups, membership_query, membership_step, MembershipStep,
};
use snow_core::incident::{
    classify_incident_api_error, group_page, group_plan, incident_by_number, incident_by_sys_id,
    incident_page, incident_plan, incident_query_states, validate_incident_get_input,
    validate_incident_query_input, IncidentGetInput, IncidentQueryFilters, IncidentQueryInput,
    IncidentReadError, IncidentSelector, PageLimits,
};
use snow_core::incident_queue::{
    assignee_step, incident_sla_bucket, queue_plan, resolve_incident_queue_group, stale_cutoff,
    validate_incident_queue_input, watermark, AssigneeStep, IncidentAssignmentGroup,
    IncidentQueueSlaRisk, IncidentSlaBucket, QueueError, QueueInput, QueueLimits,
    ResolvedIncidentAssignee, Scan,
};
use snow_core::my_work::{
    hydrated, incident_list, project_lists, reconcile_work, story_list, task_lists, work_query,
    KeptRecord,
};
use snow_core::query::{Operator, Query};
use snow_core::queue_items::{
    incident_departures, incident_queue_aggregates, keep_risk, priority_number, queue_item,
    queue_page, sort_incident_queue_items, IncidentQueueSortBy, IncidentQueueSortDirection,
    QueueItem,
};
use snow_core::record_query::{
    choices_needed, plan_parent_id, plan_parent_query, record_page, record_plan,
    resource_plan_query, resource_plan_summary, ChangeRequestQueryFilters, RecordPageFields,
    RecordPageRequest, RecordQueryError, ResolvedResourceFilter, StoryQueryFilters,
};
use snow_core::row::{Cell, Failure, Page, Row};

const ID: &str = "0123456789abcdef0123456789abcdef";
const ID2: &str = "1123456789abcdef0123456789abcdef";

fn s(text: &str) -> String {
    text.to_string()
}

fn row(sys_id: &str, cells: &[(&str, &str)]) -> Row {
    Row {
        table: s("incident"),
        sys_id: s(sys_id),
        cells: cells
            .iter()
            .map(|(name, raw)| Cell { name: s(name), raw: Some(s(raw)), display: None, other: None })
            .collect(),
    }
}

fn choice(value: &str, label: &str) -> FieldChoice {
    FieldChoice { value: s(value), label: s(label), terminal: false }
}

fn has(q: &Query, field: &str, operator: Operator, value: &str) -> bool {
    q.conditions.iter().any(|c| c.field == field && c.operator == operator && c.value == value)
}

fn filters() -> IncidentQueryFilters {
    IncidentQueryFilters {
        numbers: None,
        assignment_group: None,
        assigned_to: None,
        caller_id: None,
        cmdb_ci: None,
        states: None,
        priorities: None,
        active: None,
        opened_after: None,
        opened_before: None,
        updated_after: None,
        updated_before: None,
    }
}

fn limits() -> PageLimits {
    PageLimits { default_limit: 20, max_limit: 100 }
}

fn refusal(filters: IncidentQueryFilters, limit: Option<usize>) -> String {
    let input = IncidentQueryInput { filters, limit, cursor: None };
    match validate_incident_query_input(&input, &limits()) {
        Err(IncidentReadError::InvalidParams(m)) => m,
        _ => panic!("was not refused"),
    }
}

#[test]
fn incident_state_resolution_rejects_an_ambiguous_label() {
    let choices = vec![
        FieldChoice { value: s("3"), label: s("Pending"), terminal: false },
        FieldChoice { value: s("-5"), label: s("pending"), terminal: false },
    ];
    let err = resolve_incident_state("Pending", &choices).expect_err("ambiguous label");
    assert!(matches!(
        err,
        IncidentAssignmentGroupListError::UnresolvedState { ambiguous: true, .. }
    ));
}

#[test]
fn states_are_found_by_label_and_by_value() {
    let choices = vec![choice("1", "New"), choice("2", "In Progress")];
    let by_label = resolve_incident_state("in progress", &choices).unwrap();
    let by_value = resolve_incident_state("2", &choices).unwrap();
    assert_eq!(by_label.value, "2");
    assert_eq!(by_value.value, "2");
    assert_eq!(by_value.label, "In Progress");
    assert!(matches!(
        resolve_incident_state("gone", &choices),
        Err(IncidentAssignmentGroupListError::UnresolvedState { ambiguous: false, .. })
    ));
}

#[test]
fn incidents_are_named_by_number_or_id() {
    let by_number = IncidentGetInput { number: Some(s(" inc0001 ")), sys_id: None };
    assert!(matches!(
        validate_incident_get_input(by_number),
        Ok(IncidentSelector::Number(n)) if n == "INC0001"
    ));
    let by_id = IncidentGetInput { number: None, sys_id: Some(s(ID)) };
    assert!(matches!(validate_incident_get_input(by_id), Ok(IncidentSelector::SysId(_))));
    let both = IncidentGetInput { number: Some(s("INC1")), sys_id: Some(s(ID)) };
    assert!(validate_incident_get_input(both).is_err());
    let bad = IncidentGetInput { number: Some(s("PRB1")), sys_id: None };
    assert!(matches!(
        validate_incident_get_input(bad),
        Err(IncidentReadError::InvalidParams(m)) if m == "number must match ^INC[0-9]+$"
    ));
}

#[test]
fn incident_queries_are_checked_before_they_are_asked() {
    assert_eq!(
        refusal(IncidentQueryFilters { numbers: Some(Vec::new()), ..filters() }, None),
        "numbers must contain at least one value"
    );
    assert_eq!(
        refusal(
            IncidentQueryFilters { numbers: Some(vec![s("INC1"), s("inc1")]), ..filters() },
            None
        ),
        "numbers must be unique after normalization"
    );
    assert_eq!(
        refusal(IncidentQueryFilters { priorities: Some(vec![6]), ..filters() }, None),
        "priorities must contain unique integers from 1 through 5"
    );
    assert_eq!(
        refusal(IncidentQueryFilters { opened_after: Some(s("soon")), ..filters() }, None),
        "opened_after must use YYYY-MM-DD HH:MM:SS"
    );
    assert_eq!(
        refusal(
            IncidentQueryFilters {
                opened_after: Some(s("2026-01-02 00:00:00")),
                opened_before: Some(s("2026-01-01 00:00:00")),
                active: Some(true),
                ..filters()
            },
            None
        ),
        "opened_after must be earlier than opened_before"
    );
    assert_eq!(
        refusal(IncidentQueryFilters { active: Some(true), ..filters() }, Some(101)),
        "limit must be between 1 and 100"
    );
}

#[test]
fn incident_queries_become_one_page() {
    let input = IncidentQueryInput {
        filters: IncidentQueryFilters {
            numbers: Some(vec![s("INC2"), s("INC1")]),
            states: Some(vec![s("new")]),
            active: Some(true),
            ..filters()
        },
        limit: Some(5),
        cursor: None,
    };
    let q = validate_incident_query_input(&input, &limits()).unwrap();
    let states = incident_query_states(&q, Some(vec![choice("1", "New")])).unwrap();
    assert_eq!(states, vec![s("1")]);
    assert!(matches!(
        incident_query_states(&q, None),
        Err(IncidentReadError::StateUnresolved { unavailable: true, .. })
    ));
    let plan = incident_plan(&q, &states, &vec![s("number")]);
    assert_eq!(plan.limit, Some(5));
    assert!(has(&plan, "state", Operator::In, "1"));
    assert!(has(&plan, "active", Operator::Equals, "true"));
    let full = incident_page(1, Ok(Page { rows: vec![row(ID, &[])], partial: false })).unwrap();
    assert!(!full.mark.complete);
    assert_eq!(full.mark.next_cursor.as_deref(), Some(ID));
    let last = incident_page(2, Ok(Page { rows: vec![row(ID, &[])], partial: false })).unwrap();
    assert!(last.mark.complete);
    assert!(last.mark.next_cursor.is_none());
}

#[test]
fn incident_failures_have_their_names() {
    assert!(matches!(
        classify_incident_api_error(Failure::Api(403)),
        IncidentReadError::AclDenied
    ));
    assert!(matches!(
        classify_incident_api_error(Failure::Http),
        IncidentReadError::ServiceNowUnavailable
    ));
    assert!(incident_by_sys_id(Ok(row(ID, &[]))).is_ok());
    let two = Page { rows: vec![row(ID, &[]), row(ID2, &[])], partial: false };
    assert!(matches!(incident_by_number(Ok(two)), Err(IncidentReadError::NumberAmbiguous)));
    let none = Page { rows: Vec::new(), partial: false };
    assert!(incident_by_number(Ok(none)).is_err());
}

#[test]
fn group_pages_move_on_over_rejected_rows() {
    let q = group_plan(ID, &Some(s("2")), &Some(s(ID2)), 25);
    assert_eq!(q.limit, Some(25));
    assert!(has(&q, "assignment_group", Operator::Equals, ID));
    assert!(has(&q, "state", Operator::Equals, "2"));
    let page = group_page(
        vec![row(ID, &[("active", "false")]), row(ID2, &[("state", "7")])],
        2,
        None,
        &vec![s("7")],
    );
    assert!(page.rows.is_empty());
    assert!(!page.mark.complete);
    assert_eq!(page.mark.next_cursor.as_deref(), Some(ID2));
    assert_eq!(page.mark.rows_inspected, 2);
}

#[test]
fn groups_come_from_active_memberships() {
    let member = |id: &str, name: &str| Row {
        table: s("sys_user_grmember"),
        sys_id: s("m"),
        cells: vec![
            Cell { name: s("group"), raw: Some(s(id)), display: Some(s(name)), other: None },
            Cell { name: s("group.active"), raw: Some(s("true")), display: None, other: None },
        ],
    };
    let q = membership_query(ID);
    assert_eq!(q.table, "sys_user_grmember");
    assert!(has(&q, "user", Operator::Equals, ID));
    let groups = incident_assignment_groups(&vec![
        member(ID, "Network"),
        member(ID, "Network"),
        member(ID2, "Apps"),
    ]);
    assert_eq!(groups.len(), 2);
    assert_eq!(membership_step(0, false), MembershipStep::Read);
    assert_eq!(membership_step(20, true), MembershipStep::Stop);
    assert_eq!(membership_step(20, false), MembershipStep::TooMany);
}

fn queue_input() -> QueueInput {
    QueueInput {
        group: s("Network"),
        limit: None,
        offset: None,
        scan_limit: None,
        known_sys_ids: Vec::new(),
        threshold_is_percentage: true,
        priorities: Vec::new(),
        opened_after: None,
        opened_before: None,
        updated_since: None,
        updated_before: None,
        stale_before: None,
        stale_only: false,
    }
}

fn queue_limits() -> QueueLimits {
    QueueLimits {
        default_limit: 50,
        max_limit: 200,
        default_scan_limit: 1000,
        max_scan_limit: 5000,
        max_known_sys_ids: 2,
    }
}

fn queue_refusal(input: QueueInput) -> String {
    match validate_incident_queue_input(&input, &queue_limits()) {
        Err(QueueError::InvalidParams(m)) => m,
        _ => panic!("was not refused"),
    }
}

#[test]
fn queue_inputs_are_bounded() {
    let fine = validate_incident_queue_input(&queue_input(), &queue_limits()).unwrap();
    assert_eq!((fine.limit, fine.offset, fine.scan_limit), (50, 0, 1000));
    assert_eq!(
        queue_refusal(QueueInput { group: s(" "), ..queue_input() }),
        "group must not be empty"
    );
    assert_eq!(
        queue_refusal(QueueInput { limit: Some(0), ..queue_input() }),
        "limit must be between 1 and 200"
    );
    assert_eq!(
        queue_refusal(QueueInput { offset: Some(1000), ..queue_input() }),
        "offset must be smaller than scan_limit"
    );
    assert_eq!(
        queue_refusal(QueueInput { threshold_is_percentage: false, ..queue_input() }),
        "sla_at_risk_percentage must be between 0 and 100"
    );
    assert_eq!(
        queue_refusal(QueueInput { priorities: vec![0], ..queue_input() }),
        "priorities must contain only values from 1 through 5"
    );
    let bad = QueueInput { known_sys_ids: vec![s("x")], ..queue_input() };
    assert!(matches!(
        validate_incident_queue_input(&bad, &queue_limits()),
        Err(QueueError::BadSysId(_))
    ));
}

#[test]
fn queue_groups_are_found_by_name_or_id() {
    let group = |id: &str, name: &str| IncidentAssignmentGroup { sys_id: s(id), name: s(name) };
    let groups = vec![group(ID, "Network"), group(ID2, "Apps"), group("z", "apps")];
    assert_eq!(resolve_incident_queue_group("network", &groups).unwrap().sys_id, ID);
    assert_eq!(resolve_incident_queue_group(ID2, &groups).unwrap().name, "Apps");
    assert!(matches!(
        resolve_incident_queue_group("apps", &groups),
        Err(QueueError::AmbiguousGroup { .. })
    ));
    assert!(matches!(
        resolve_incident_queue_group("gone", &groups),
        Err(QueueError::GroupNotFound { .. })
    ));
}

#[test]
fn assignees_may_be_nobody_or_me() {
    assert!(matches!(assignee_step(&None), AssigneeStep::Anyone));
    assert!(matches!(assignee_step(&Some(s("Unassigned"))), AssigneeStep::Unassigned));
    assert!(matches!(assignee_step(&Some(s("me"))), AssigneeStep::Me));
    assert!(matches!(assignee_step(&Some(s(ID))), AssigneeStep::User(_)));
    assert!(matches!(assignee_step(&Some(s("casey"))), AssigneeStep::Lookup(_)));
}

#[test]
fn moments_are_written_out() {
    assert_eq!(watermark(0).as_deref(), Some("1970-01-01 00:00:00"));
    assert_eq!(watermark(86_399).as_deref(), Some("1970-01-01 23:59:59"));
    assert_eq!(watermark(i64::MAX), None);
    assert_eq!(
        stale_cutoff(&Some(s("2026-01-01 00:00:00")), 0).as_deref(),
        Some("2026-01-01 00:00:00")
    );
}

#[test]
fn queue_plans_hold_to_the_group() {
    let q = queue_plan(
        ID,
        &QueueInput { priorities: vec![1, 2], ..queue_input() },
        &None,
        &Some(ResolvedIncidentAssignee::Unassigned),
        "2026-01-01 00:00:00",
    );
    assert!(has(&q, "assignment_group", Operator::Equals, ID));
    assert!(q.conditions.iter().any(|c| c.field == "assigned_to" && c.operator == Operator::IsEmpty));
    assert_eq!(q.limit, Some(200));
}

#[test]
fn scans_stop_at_their_limit() {
    let scan = Scan::start();
    assert!(scan.wants_page(2));
    let scan = scan.take(Some(vec![row(ID, &[]), row(ID2, &[]), row("z", &[])]), false, 2);
    assert_eq!(scan.rows.len(), 2);
    assert!(!scan.complete);
    assert!(!scan.wants_page(2));
    let done = Scan::start().take(Some(vec![row(ID, &[])]), true, 2);
    assert!(done.complete);
    let lost = Scan::start().take(None, false, 2);
    assert!(lost.stopped);
}

fn item(id: &str, priority: &str, bucket: IncidentSlaBucket, position: usize) -> QueueItem {
    queue_item(
        &row(id, &[("priority", priority), ("state", "2"), ("opened_at", "2026-01-01 00:00:00")]),
        None,
        bucket,
        position,
    )
}

#[test]
fn queue_items_are_sorted_and_paged() {
    let items = vec![
        item("a", "3", IncidentSlaBucket::Healthy, 0),
        item("b", "1", IncidentSlaBucket::Breached, 1),
        item("c", "2", IncidentSlaBucket::AtRisk, 2),
    ];
    let sorted = sort_incident_queue_items(
        items,
        IncidentQueueSortBy::Priority,
        IncidentQueueSortDirection::Asc,
    );
    let ids: Vec<&str> = sorted.iter().map(|i| i.sys_id.as_str()).collect();
    assert_eq!(ids, vec!["b", "c", "a"]);
    let totals = incident_queue_aggregates(&sorted, "2026-01-02 00:00:00", true);
    assert_eq!(totals.unassigned, 3);
    assert!(totals.complete);
    let page = queue_page(sorted, 1, 1, true);
    assert_eq!(page.items.len(), 1);
    assert_eq!(page.items[0].sys_id, "c");
    assert_eq!(page.next_offset, Some(2));
    let risky = keep_risk(
        vec![
            item("a", "3", IncidentSlaBucket::Healthy, 0),
            item("b", "1", IncidentSlaBucket::Breached, 1),
        ],
        IncidentQueueSlaRisk::Breached,
    );
    assert_eq!(risky.len(), 1);
    assert_eq!(priority_number("2"), 2);
}

#[test]
fn sla_risk_is_the_worst_that_holds() {
    assert_eq!(incident_sla_bucket(false, 1, true), IncidentSlaBucket::Unavailable);
    assert_eq!(incident_sla_bucket(true, 1, false), IncidentSlaBucket::Breached);
    assert_eq!(incident_sla_bucket(true, 0, true), IncidentSlaBucket::AtRisk);
    assert_eq!(incident_sla_bucket(true, 0, false), IncidentSlaBucket::Healthy);
    assert_eq!(IncidentSlaBucket::AtRisk.label(), "at_risk");
    assert!(IncidentSlaBucket::Healthy.matches(IncidentQueueSlaRisk::Any));
}

#[test]
fn incidents_that_left_the_group_are_told() {
    let rows = vec![
        row(ID, &[("assignment_group", "g"), ("state", "2"), ("active", "true")]),
        row(ID2, &[("assignment_group", "other"), ("state", "2"), ("active", "true")]),
    ];
    let gone = incident_departures(&vec![s(ID), s(ID2), s("z")], &rows, "g", &vec![s("7")]);
    assert!(!gone.contains(&s(ID)));
    assert!(gone.contains(&s(ID2)));
}

#[test]
fn work_lists_ask_for_open_records_of_a_user() {
    let list = incident_list();
    let q = work_query(&list, ID, true);
    assert_eq!(q.table, "incident");
    assert!(has(&q, "active", Operator::Equals, "true"));
    assert_eq!(story_list().table, "rm_story");
    assert_eq!(task_lists().len() >= 2, true);
    assert_eq!(project_lists().len(), 2);
    let page = hydrated(
        &vec![row(ID, &[("active", "true"), ("state", "1")]), row(ID2, &[("active", "false")])],
        true,
        &vec![s("7")],
    );
    assert_eq!(page.rows.len(), 1);
    let (kept, left) = reconcile_work(
        vec![
            KeptRecord { sys_id: s(ID), open: true },
            KeptRecord { sys_id: s(ID2), open: true },
        ],
        &vec![s(ID)],
        true,
    );
    assert_eq!(kept.len(), 1);
    assert_eq!(left.len(), 1);
    assert_eq!(left[0].sys_id, ID2);
}

fn change_filters() -> ChangeRequestQueryFilters {
    ChangeRequestQueryFilters {
        assignment_group: Some(s(ID)),
        assigned_to: None,
        state: Some(s("Implement")),
        start_date_after: None,
        start_date_before: None,
    }
}

fn page_fields() -> RecordPageFields {
    RecordPageFields {
        change_request: vec![s("number")],
        story: vec![s("number")],
        story_description: vec![s("description")],
    }
}

#[test]
fn change_queries_resolve_their_state() {
    let request =
        RecordPageRequest::ChangeRequest { filters: change_filters(), limit: 10, cursor: None };
    assert_eq!(choices_needed(&request), Some("change_request"));
    let q = record_plan(&request, &page_fields(), &vec![choice("-1", "Implement")]).unwrap();
    assert_eq!(q.table, "change_request");
    assert_eq!(q.limit, Some(10));
    assert!(has(&q, "state", Operator::Equals, "-1"));
    assert!(matches!(
        record_plan(&request, &page_fields(), &Vec::new()),
        Err(RecordQueryError::UnresolvedState { ambiguous: false, .. })
    ));
}

#[test]
fn story_queries_carry_their_filters() {
    let request = RecordPageRequest::Story {
        filters: StoryQueryFilters {
            assignment_group: None,
            assigned_to: None,
            story_owner: Some(s(ID)),
            lead_developer: None,
            states: None,
            sprint: None,
            project: None,
            cmdb_ci: None,
            blocked: Some(true),
            due_date_after: None,
            due_date_before: None,
            updated_after: None,
            numbers: None,
            text: Some(s("vpn")),
        },
        include_description: true,
        limit: 3,
        cursor: Some(s(ID2)),
    };
    assert_eq!(choices_needed(&request), None);
    let q = record_plan(&request, &page_fields(), &Vec::new()).unwrap();
    assert!(has(&q, "u_story_owner", Operator::Equals, ID));
    assert!(has(&q, "blocked", Operator::Equals, "true"));
    assert!(q.fields.contains(&s("description")));
    let page = record_page(vec![row(ID, &[]), row(ID2, &[])], 2);
    assert_eq!(page.mark.next_cursor.as_deref(), Some(ID2));
}

#[test]
fn resource_plans_have_a_parent_and_a_limit() {
    let q = plan_parent_query("PRJ0000001").unwrap();
    assert_eq!(q.table, "pm_project");
    assert_eq!(
        plan_parent_query("INC0000001").err().as_deref(),
        Some("parent_number must start with DMND or PRJ")
    );
    assert_eq!(plan_parent_id("PRJ1", Some(&row(ID, &[]))), Ok(s(ID)));
    assert_eq!(
        plan_parent_id("PRJ1", None),
        Err(s("resource_plan parent PRJ1 was not found"))
    );
    let (q, kind) = resource_plan_query(
        &Some(s(ID)),
        &ResolvedResourceFilter::Anyone,
        &vec![s("1"), s("2")],
        5,
    );
    assert!(kind.is_none());
    assert!(has(&q, "task", Operator::Equals, ID));
    let full = resource_plan_summary(&vec![row(ID, &[])], 1);
    assert!(full.truncated);
    assert!(!resource_plan_summary(&vec![row(ID, &[])], 2).truncated);
}
