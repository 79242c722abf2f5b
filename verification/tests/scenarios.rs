use snow_core::catalog_items::catalog_variables;
use snow_core::catalog_request::{
    catalog_submit_result_from_response, order_path, request_item_query, reread_target,
    wanted_request, with_request_item, with_reread, CatalogReply, CatalogReplyItem,
};
use snow_core::choices::{
    resolve_incident_state, FieldChoice, IncidentAssignmentGroupListError, ResolvedIncidentState,
};
use snow_core::incident::{group_page, group_plan, PageLimits};
use snow_core::page_input::{
    validate_incident_assignment_group_input, validate_list_input, validate_record_query,
    IncidentAssignmentGroupListInput, RecordQueryInput, TaskSelector,
};
use snow_core::query::{DisplayMode, Operator, Query};
use snow_core::record_query::{
    plan_parent_id, plan_parent_query, record_page, record_plan, resource_plan_query,
    resource_plan_summary, ChangeRequestQueryFilters, RecordPageFields, RecordPageRequest,
    RecordQueryError, ResolvedResourceFilter, StoryQueryFilters,
};
use snow_core::row::{Cell, Failure, Row};
use snow_core::server::{
    judge_server_find, judge_server_read, plan_server_get, ServerFailure, ServerGetError,
    ServerLookup, ServerRequest,
};
use snow_core::sla::{
    applicable_ids, parent_not_found_status, parent_ref_from_record, task_sla_statuses,
    TaskSlaParentRef, TaskSlaReadability,
};
use snow_core::sla_rows::{agreement_query, agreements_by_task, AgreementRow};
use snow_core::user::{user_search_query, UserSearch};

const GROUP: &str = "0000000000000000000000000000ab01";

fn s(text: &str) -> String {
    text.to_string()
}

fn cell(name: &str, raw: &str, display: Option<&str>) -> Cell {
    Cell { name: s(name), raw: Some(s(raw)), display: display.map(s), other: None }
}

fn row(table: &str, sys_id: &str, cells: Vec<Cell>) -> Row {
    Row { table: s(table), sys_id: s(sys_id), cells }
}

/// The conditions and the order of a query, as the provider reads them.
fn encoded(q: &Query) -> String {
    let mut parts: Vec<String> = q
        .conditions
        .iter()
        .map(|c| {
            let sign = match c.operator {
                Operator::Equals => "=",
                Operator::Contains => "LIKE",
                Operator::GreaterThan => ">",
                Operator::LessThan => "<",
                Operator::In => "IN",
                _ => "?",
            };
            format!("{}{sign}{}", c.field, c.value)
        })
        .collect();
    for key in &q.order {
        assert!(!key.descending);
        parts.push(format!("ORDERBY{}", key.field));
    }
    parts.join("^")
}

fn choice(value: &str, label: &str) -> FieldChoice {
    FieldChoice { value: s(value), label: s(label), terminal: false }
}

#[test]
fn user_search_builds_live_first_and_last_name_filters() {
    let q = user_search_query(&UserSearch {
        first_name: Some(s("Casey")),
        last_name: Some(s("User")),
        name_contains: None,
        email_contains: None,
        limit: Some(10),
        active: None,
    })
    .ok()
    .unwrap();
    assert_eq!(encoded(&q), "active=true^first_name=Casey^last_name=User^ORDERBYname");
    assert_eq!(q.limit, Some(10));
    assert_eq!(q.display, DisplayMode::Both);
}

fn found(lookup: ServerLookup) -> (Query, String) {
    match plan_server_get(lookup) {
        Ok(ServerRequest::Find { query, selector }) => (query, selector),
        _ => panic!("the server is looked for"),
    }
}

#[test]
fn server_get_live_by_name_queries_base_table_without_leaf_class_filter() {
    let (q, _) = found(ServerLookup::ExactName(s("esx01.example.internal")));
    assert_eq!(q.table, "cmdb_ci_server");
    assert_eq!(q.limit, Some(2));
    assert_eq!(encoded(&q), "name=esx01.example.internal^ORDERBYname");
}

#[test]
fn server_get_live_by_name_empty_result_is_not_found() {
    let (_, selector) = found(ServerLookup::ExactName(s("missing.example.internal")));
    assert_eq!(judge_server_find(Ok(Vec::new()), selector).err(), Some(ServerGetError::NotFound));
}

#[test]
fn server_get_live_by_sys_id_404_is_not_found() {
    let failed = ServerFailure {
        failure: Failure::Api(404),
        message: s("No Record found"),
        refuses_access: false,
    };
    assert_eq!(judge_server_read(Err(failed)).err(), Some(ServerGetError::NotFound));
}

#[test]
fn server_get_live_acl_403_is_acl_restricted_not_not_found() {
    let failed = ServerFailure {
        failure: Failure::Api(403),
        message: s("denied"),
        refuses_access: false,
    };
    let (_, selector) = found(ServerLookup::ExactName(s("secret.example.internal")));
    assert_eq!(
        judge_server_find(Err(failed), selector).err(),
        Some(ServerGetError::AclRestricted(s("denied")))
    );
}

#[test]
fn server_get_live_network_failure_is_network_not_not_found() {
    let failed = ServerFailure {
        failure: Failure::Http,
        message: s("connection refused"),
        refuses_access: false,
    };
    let (_, selector) = found(ServerLookup::ExactName(s("host.example.internal")));
    assert_eq!(
        judge_server_find(Err(failed), selector).err(),
        Some(ServerGetError::Network(s("connection refused")))
    );
}

#[test]
fn server_get_live_duplicate_name_is_disambiguation() {
    let (_, selector) = found(ServerLookup::ExactName(s("dup.example.internal")));
    let rows = vec![
        row("cmdb_ci_server", "11111111111111111111111111111111", vec![]),
        row("cmdb_ci_server", "22222222222222222222222222222222", vec![]),
    ];
    assert_eq!(
        judge_server_find(Ok(rows), selector).err(),
        Some(ServerGetError::Disambiguation { selector: s("name=dup.example.internal"), matched: 2 })
    );
}

fn page_fields() -> RecordPageFields {
    RecordPageFields {
        change_request: vec![s("sys_id"), s("number")],
        story: vec![s("sys_id")],
        story_description: vec![s("description"), s("acceptance_criteria")],
    }
}

fn no_story_filters() -> StoryQueryFilters {
    StoryQueryFilters {
        assignment_group: None,
        assigned_to: None,
        story_owner: None,
        lead_developer: None,
        states: None,
        sprint: None,
        project: None,
        cmdb_ci: None,
        blocked: None,
        due_date_after: None,
        due_date_before: None,
        updated_after: None,
        numbers: None,
        text: None,
    }
}

fn accepted(input: RecordQueryInput) -> RecordPageRequest {
    match validate_record_query(input) {
        Ok(request) => request,
        Err(e) => panic!("{e:?}"),
    }
}

fn planned(request: &RecordPageRequest, choices: &Vec<FieldChoice>) -> Query {
    match record_plan(request, &page_fields(), choices) {
        Ok(q) => q,
        Err(e) => panic!("{e:?}"),
    }
}

#[test]
fn record_query_enforces_change_and_story_filters_and_exact_projections() {
    let choices = vec![choice("1", "New"), choice("2", "In Progress")];
    let change = accepted(RecordQueryInput::ChangeRequest {
        filters: ChangeRequestQueryFilters {
            assignment_group: Some(s("AAAAAAAAAAAAAAAAAAAAAAAAAAAAAAAA")),
            assigned_to: Some(s("bbbbbbbbbbbbbbbbbbbbbbbbbbbbbbbb")),
            state: Some(s("in progress")),
            start_date_after: Some(s("2026-08-01")),
            start_date_before: Some(s("2026-08-31")),
        },
        limit: Some(1),
        cursor: Some(s("11111111111111111111111111111111")),
    });
    let q = planned(&change, &choices);
    assert_eq!(q.table, "change_request");
    assert_eq!(
        encoded(&q),
        "assignment_group=aaaaaaaaaaaaaaaaaaaaaaaaaaaaaaaa\
         ^assigned_to=bbbbbbbbbbbbbbbbbbbbbbbbbbbbbbbb\
         ^state=2\
         ^start_date>2026-08-01\
         ^start_date<2026-08-31\
         ^sys_id>11111111111111111111111111111111\
         ^ORDERBYsys_id"
    );
    assert_eq!(q.fields, vec!["sys_id", "number"]);
    assert_eq!(q.display, DisplayMode::Both);
    assert_eq!(q.limit, Some(1));
    let one = vec![row("change_request", "22222222222222222222222222222222", vec![])];
    let page = record_page(one, 1);
    assert_eq!(page.mark.rows_inspected, 1);
    assert!(!page.mark.complete);
    assert_eq!(page.mark.next_cursor.as_deref(), Some("22222222222222222222222222222222"));

    let story = accepted(RecordQueryInput::Story {
        filters: StoryQueryFilters {
            assignment_group: Some(s("aaaaaaaaaaaaaaaaaaaaaaaaaaaaaaaa")),
            assigned_to: Some(s("bbbbbbbbbbbbbbbbbbbbbbbbbbbbbbbb")),
            story_owner: Some(s("cccccccccccccccccccccccccccccccc")),
            lead_developer: Some(s("dddddddddddddddddddddddddddddddd")),
            states: Some(vec![s("New"), s("2")]),
            sprint: Some(s("eeeeeeeeeeeeeeeeeeeeeeeeeeeeeeee")),
            project: Some(s("ffffffffffffffffffffffffffffffff")),
            cmdb_ci: Some(s("99999999999999999999999999999999")),
            blocked: Some(true),
            due_date_after: Some(s("2026-08-01")),
            due_date_before: Some(s("2026-08-31")),
            updated_after: Some(s("2026-08-01 12:00:00")),
            numbers: Some(vec![s("stry1"), s("STRY2")]),
            text: Some(s(" identity ")),
        },
        include_description: true,
        limit: Some(2),
        cursor: Some(s("22222222222222222222222222222222")),
    });
    let q = planned(&story, &choices);
    assert_eq!(q.table, "rm_story");
    assert_eq!(
        encoded(&q),
        "assignment_group=aaaaaaaaaaaaaaaaaaaaaaaaaaaaaaaa\
         ^assigned_to=bbbbbbbbbbbbbbbbbbbbbbbbbbbbbbbb\
         ^u_story_owner=cccccccccccccccccccccccccccccccc\
         ^u_lead_dev=dddddddddddddddddddddddddddddddd\
         ^stateIN1,2\
         ^sprint=eeeeeeeeeeeeeeeeeeeeeeeeeeeeeeee\
         ^project=ffffffffffffffffffffffffffffffff\
         ^cmdb_ci=99999999999999999999999999999999\
         ^blocked=true\
         ^due_date>2026-08-01\
         ^due_date<2026-08-31\
         ^sys_updated_on>2026-08-01 12:00:00\
         ^numberINSTRY1,STRY2\
         ^short_descriptionLIKEidentity\
         ^sys_id>22222222222222222222222222222222\
         ^ORDERBYsys_id"
    );
    assert_eq!(q.fields, vec!["sys_id", "description", "acceptance_criteria"]);
    assert_eq!(q.display, DisplayMode::Both);
    assert_eq!(q.limit, Some(2));
    let page =
        record_page(vec![row("rm_story", "33333333333333333333333333333333", vec![])], 2);
    assert_eq!(page.mark.rows_inspected, 1);
    assert!(page.mark.complete);
    assert_eq!(page.mark.next_cursor, None);
}

#[test]
fn record_query_exact_multiple_requires_terminal_empty_page() {
    let ask = |cursor: Option<String>| {
        accepted(RecordQueryInput::Story {
            filters: no_story_filters(),
            include_description: false,
            limit: Some(2),
            cursor,
        })
    };
    let q = planned(&ask(None), &Vec::new());
    assert_eq!(encoded(&q), "ORDERBYsys_id");
    assert_eq!(q.fields, vec!["sys_id"]);
    let first = record_page(
        vec![
            row("rm_story", "11111111111111111111111111111111", vec![]),
            row("rm_story", "22222222222222222222222222222222", vec![]),
        ],
        2,
    );
    assert!(!first.mark.complete);
    assert_eq!(first.mark.next_cursor.as_deref(), Some("22222222222222222222222222222222"));
    let q = planned(&ask(first.mark.next_cursor), &Vec::new());
    assert_eq!(encoded(&q), "sys_id>22222222222222222222222222222222^ORDERBYsys_id");
    let terminal = record_page(Vec::new(), 2);
    assert!(terminal.mark.complete);
    assert_eq!(terminal.mark.rows_inspected, 0);
    assert_eq!(terminal.mark.next_cursor, None);
}

#[test]
fn record_query_state_correction_fails_before_record_io() {
    let known = vec![choice("1", "New"), choice("2", "Pending"), choice("3", "pending")];
    let cases = [
        (vec![s("Missing")], false),
        (vec![s("Pending")], true),
        (vec![s("1"), s("New")], true),
    ];
    for (selectors, expected_ambiguous) in cases {
        let mut filters = no_story_filters();
        filters.states = Some(selectors);
        let request = accepted(RecordQueryInput::Story {
            filters,
            include_description: false,
            limit: None,
            cursor: None,
        });
        match record_plan(&request, &page_fields(), &known) {
            Err(RecordQueryError::UnresolvedState { ambiguous, choices, .. }) => {
                assert_eq!(ambiguous, expected_ambiguous);
                assert_eq!(choices.len(), 3);
            }
            _ => panic!("the states are not resolved"),
        }
    }
}

fn plan_limits() -> PageLimits {
    PageLimits { default_limit: 50, max_limit: 200 }
}

#[test]
fn resource_plan_list_queries_task_and_state_in_once() {
    let task = "00000000000000000000000000000010";
    let group = "00000000000000000000000000000020";
    let accepted = validate_list_input(
        TaskSelector::SysId(s(task)),
        ResolvedResourceFilter::Group(s(group)),
        None,
        &plan_limits(),
    )
    .ok()
    .unwrap();
    let (q, _) =
        resource_plan_query(&Some(s(task)), &accepted.resource, &vec![s("1"), s("3")], 50);
    assert_eq!(q.table, "resource_plan");
    assert_eq!(
        encoded(&q),
        format!("task={task}^group_resource={group}^stateIN1,3^ORDERBYnumber")
    );
    for field in ["notes", "u_description"] {
        assert!(q.fields.contains(&s(field)), "{field}");
    }
    assert!(!q.fields.contains(&s("description")));
    for field in ["task.number", "task.sys_class_name"] {
        assert!(q.dot_walk.contains(&s(field)), "{field}");
    }
    let summary = resource_plan_summary(&vec![row("resource_plan", "1", vec![])], 50);
    assert_eq!(summary.total_returned, 1);
    assert!(!summary.truncated);
}

#[test]
fn resource_plan_list_resolves_parent_number_to_task_sys_id() {
    let number = "PRJ_PLACEHOLDER";
    let parent = "00000000000000000000000000000010";
    let q = plan_parent_query(number).ok().unwrap();
    assert_eq!(q.table, "pm_project");
    assert_eq!(encoded(&q), format!("number={number}"));
    let found = row("pm_project", parent, vec![]);
    let task = plan_parent_id(number, Some(&found)).unwrap();
    let (q, _) =
        resource_plan_query(&Some(task), &ResolvedResourceFilter::Anyone, &Vec::new(), 50);
    assert_eq!(encoded(&q), format!("task={parent}^ORDERBYnumber"));
}

#[test]
fn resource_plan_list_marks_truncated_when_rows_equal_limit() {
    let accepted = validate_list_input(
        TaskSelector::Any,
        ResolvedResourceFilter::Anyone,
        Some(2),
        &plan_limits(),
    )
    .ok()
    .unwrap();
    let rows = vec![row("resource_plan", "1", vec![]), row("resource_plan", "2", vec![])];
    let summary = resource_plan_summary(&rows, accepted.limit);
    assert!(summary.truncated);
    assert_eq!(summary.limit, 2);
}

fn incident_row(sys_id: &str, number: &str, state: (&str, &str), active: &str) -> Row {
    row(
        "incident",
        sys_id,
        vec![
            cell("number", number, None),
            cell("state", state.0, Some(state.1)),
            cell("active", active, Some(active)),
        ],
    )
}

fn terminal_states() -> Vec<String> {
    vec![s("7"), s("closed")]
}

fn group_input(
    state: Option<&str>,
    limit: Option<usize>,
    cursor: Option<String>,
) -> IncidentAssignmentGroupListInput {
    IncidentAssignmentGroupListInput {
        assignment_group_sys_id: s(GROUP),
        state: state.map(s),
        limit,
        cursor,
    }
}

fn numbers(rows: &[Row]) -> Vec<&str> {
    rows.iter().filter_map(|row| row.get_str("number")).collect()
}

#[test]
fn incident_group_page_scans_the_group_across_pages() {
    let limits = PageLimits { default_limit: 50, max_limit: 200 };
    let ask = validate_incident_assignment_group_input(
        &group_input(None, Some(2), None),
        &limits,
    )
    .ok()
    .unwrap();
    let q = group_plan(&ask.assignment_group_sys_id, &None, &ask.cursor, 2);
    assert_eq!(q.limit, Some(2));
    assert_eq!(encoded(&q), format!("assignment_group={GROUP}^active=true^ORDERBYsys_id"));
    let first = group_page(
        vec![
            incident_row("0000000000000000000000000000aa01", "<INC_1>", ("1", "New"), "true"),
            incident_row("0000000000000000000000000000aa02", "<INC_2>", ("3", "Pending"), "true"),
        ],
        2,
        None,
        &terminal_states(),
    );
    assert_eq!(first.rows.len(), 2);
    assert_eq!(first.mark.rows_inspected, 2);
    assert!(!first.mark.complete);
    assert_eq!(first.mark.next_cursor.as_deref(), Some("0000000000000000000000000000aa02"));

    let ask = validate_incident_assignment_group_input(
        &group_input(None, Some(2), first.mark.next_cursor.clone()),
        &limits,
    )
    .ok()
    .unwrap();
    let q = group_plan(&ask.assignment_group_sys_id, &None, &ask.cursor, 2);
    assert_eq!(
        encoded(&q),
        format!(
            "assignment_group={GROUP}^active=true\
             ^sys_id>0000000000000000000000000000aa02^ORDERBYsys_id"
        )
    );
    let second = group_page(
        vec![incident_row(
            "0000000000000000000000000000aa03",
            "<INC_3>",
            ("3", "Pending"),
            "true",
        )],
        2,
        None,
        &terminal_states(),
    );
    assert_eq!(second.rows.len(), 1);
    assert!(second.mark.complete);
    assert_eq!(second.mark.next_cursor, None);
    let mut all = numbers(&first.rows);
    all.extend(numbers(&second.rows));
    assert_eq!(all, vec!["<INC_1>", "<INC_2>", "<INC_3>"]);
}

#[test]
fn incident_group_page_rejects_terminal_and_inactive_rows() {
    let pending = ("3", "Pending");
    let page = group_page(
        vec![
            incident_row("0000000000000000000000000000aa01", "<INC_ACTIVE>", pending, "true"),
            incident_row("0000000000000000000000000000aa02", "<INC_INACTIVE>", pending, "false"),
            incident_row("0000000000000000000000000000aa03", "<INC_CLOSED>", ("7", "Closed"), "true"),
        ],
        10,
        None,
        &terminal_states(),
    );
    assert_eq!(numbers(&page.rows), vec!["<INC_ACTIVE>"]);
    assert_eq!(page.mark.rows_inspected, 3);
}

#[test]
fn incident_group_page_advances_when_every_row_is_rejected() {
    let closed = ("7", "Closed");
    let page = group_page(
        vec![
            incident_row("0000000000000000000000000000aa01", "<INC_1>", closed, "true"),
            incident_row("0000000000000000000000000000aa02", "<INC_2>", closed, "true"),
        ],
        2,
        None,
        &terminal_states(),
    );
    assert!(page.rows.is_empty());
    assert!(!page.mark.complete);
    assert_eq!(page.mark.next_cursor.as_deref(), Some("0000000000000000000000000000aa02"));
}

fn incident_states() -> Vec<FieldChoice> {
    vec![choice("1", "New"), choice("3", "Pending"), choice("7", "Closed")]
}

#[test]
fn incident_group_page_resolves_state_label_and_raw_value_identically() {
    for selector in ["pending", "3"] {
        let ask = validate_incident_assignment_group_input(
            &group_input(Some(selector), None, None),
            &PageLimits { default_limit: 50, max_limit: 200 },
        )
        .ok()
        .unwrap();
        let wanted = ask.state_selector.unwrap();
        let state = resolve_incident_state(&wanted, &incident_states()).ok().unwrap();
        let q = group_plan(GROUP, &Some(state.value.clone()), &None, 50);
        assert_eq!(
            encoded(&q),
            format!("assignment_group={GROUP}^active=true^state=3^ORDERBYsys_id")
        );
        let page = group_page(Vec::new(), 50, Some(state), &terminal_states());
        assert_eq!(
            page.state,
            Some(ResolvedIncidentState { value: s("3"), label: s("Pending") })
        );
    }
}

#[test]
fn incident_group_page_reports_choices_for_an_unknown_state() {
    match resolve_incident_state("Awaiting Vendor", &incident_states()) {
        Err(IncidentAssignmentGroupListError::UnresolvedState {
            requested,
            ambiguous,
            choices,
        }) => {
            assert_eq!(requested, "Awaiting Vendor");
            assert!(!ambiguous);
            assert!(choices.iter().any(|choice| choice.label == "Pending"));
        }
        _ => panic!("the state is not known"),
    }
}

const ITEM: &str = "300d473b13f00c10906630128144b0d1";
const RITM: &str = "29ebf58b2b0dcbd0f7a2fe995e91bfb7";

fn empty_reply() -> CatalogReply {
    CatalogReply {
        request_id: None,
        request_number: None,
        table: None,
        sys_id: None,
        number: None,
        nested_sys_id: None,
        nested_number: None,
        nested_table: None,
        items: None,
        request_items: None,
        request_item: None,
    }
}

#[test]
fn get_catalog_item_fetches_item_variables_and_choices() {
    let variable = "11111111111111111111111111111111";
    let rows = vec![row(
        "item_option_new",
        variable,
        vec![
            cell("name", "does_the_active_directory_group_exist", None),
            cell("question_text", "Does the Active Directory group exist?", None),
            cell("type", "5", Some("Select Box")),
            cell("mandatory", "true", None),
            cell("default_value", "", None),
            cell("order", "100", None),
        ],
    )];
    let choices = vec![row(
        "question_choice",
        "22222222222222222222222222222222",
        vec![
            cell("question", variable, None),
            cell("value", "Yes", None),
            cell("text", "Yes", None),
            cell("order", "100", None),
        ],
    )];
    let variables = catalog_variables(rows, &choices);
    assert_eq!(variables.len(), 1);
    assert_eq!(variables[0].name, "does_the_active_directory_group_exist");
    assert_eq!(variables[0].label, "Does the Active Directory group exist?");
    assert_eq!(variables[0].variable_type, "Select Box");
    assert!(variables[0].mandatory);
    assert_eq!(variables[0].default_value, None);
    assert_eq!(variables[0].choices[0].value, "Yes");
}

#[test]
fn submit_catalog_request_posts_order_now_and_parses_request_item() {
    assert_eq!(
        order_path(ITEM),
        Ok(format!("/api/sn_sc/v1/servicecatalog/items/{ITEM}/order_now"))
    );
    let mut reply = empty_reply();
    reply.request_number = Some(s("REQ0010001"));
    reply.request_id = Some(s("aaaaaaaaaaaaaaaaaaaaaaaaaaaaaaaa"));
    reply.items =
        Some(vec![CatalogReplyItem { sys_id: Some(s(RITM)), number: Some(s("RITM0010001")) }]);
    let result = catalog_submit_result_from_response(s(ITEM), &reply, "http://host", "sp");
    assert_eq!(reread_target(&result), Some((s("sc_req_item"), s(RITM))));
    let result = with_reread(result, s("sc_req_item"), s(RITM), s("RITM0010001"));
    assert_eq!(wanted_request(&result), None);
    assert_eq!(result.table.as_deref(), Some("sc_req_item"));
    assert_eq!(result.sys_id.as_deref(), Some(RITM));
    assert_eq!(result.number.as_deref(), Some("RITM0010001"));
    assert_eq!(result.request_number.as_deref(), Some("REQ0010001"));
    let url = format!("http://host/sp?id=ticket&table=sc_req_item&sys_id={RITM}&view=sp");
    assert_eq!(result.browser_url, Some(url));
}

#[test]
fn submit_catalog_request_resolves_request_item_from_request_response() {
    let request = "2df34a472b810fd0f7a2fe995e91bf45";
    let mut reply = empty_reply();
    reply.table = Some(s("sc_request"));
    reply.sys_id = Some(s(request));
    reply.request_id = Some(s(request));
    reply.number = Some(s("REQ2688830"));
    reply.request_number = Some(s("REQ2688830"));
    let result = catalog_submit_result_from_response(s(ITEM), &reply, "http://host", "sp");
    assert_eq!(reread_target(&result), Some((s("sc_request"), s(request))));
    let result = with_reread(result, s("sc_request"), s(request), s("REQ2688830"));
    assert_eq!(wanted_request(&result).as_deref(), Some(request));
    let q = request_item_query(request);
    assert_eq!(q.table, "sc_req_item");
    assert_eq!(encoded(&q), format!("request={request}"));
    let item = row("sc_req_item", RITM, vec![cell("number", "RITM2688830", None)]);
    let result = with_request_item(result, &item, "http://host", "sp");
    assert_eq!(result.table.as_deref(), Some("sc_req_item"));
    assert_eq!(result.sys_id.as_deref(), Some(RITM));
    assert_eq!(result.number.as_deref(), Some("RITM2688830"));
    assert_eq!(result.request_number.as_deref(), Some("REQ2688830"));
    assert_eq!(result.request_item_number.as_deref(), Some("RITM2688830"));
    let url = format!("http://host/sp?id=ticket&table=sc_req_item&sys_id={RITM}&view=sp");
    assert_eq!(result.browser_url, Some(url));
}

fn response_sla() -> AgreementRow {
    AgreementRow {
        row: row(
            "task_sla",
            "sla-row-1",
            vec![
                cell("task", "parent-sys-1", Some("INC0000001")),
                cell("sla", "sla-def", Some("Response SLA")),
                cell("stage", "in_progress", None),
                cell("active", "true", None),
                cell("has_breached", "false", None),
                cell("planned_end_time", "2026-05-08 10:00:00", None),
            ],
        ),
        business_elapsed_millionths: Some(72_500_000),
    }
}

fn parent(number: &str, table: &str, sys_id: &str) -> TaskSlaParentRef {
    let found = row(table, sys_id, vec![cell("number", number, None)]);
    parent_ref_from_record(&found, number)
}

#[test]
fn task_sla_status_for_number_uses_parent_lookup_and_bulk_sla_helper() {
    let parents = vec![parent("INC0000001", "incident", "parent-sys-1")];
    let q = agreement_query(&applicable_ids(&parents));
    assert_eq!(encoded(&q), "taskINparent-sys-1");
    let statuses = task_sla_statuses(&parents, &agreements_by_task(&vec![response_sla()]));
    assert_eq!(statuses.len(), 1);
    let status = &statuses[0];
    assert_eq!(status.record_number, "INC0000001");
    assert_eq!(status.record_table, "incident");
    assert_eq!(status.record_sys_id, "parent-sys-1");
    assert_eq!(status.readable, TaskSlaReadability::ReadableRows);
    assert_eq!(status.rows.len(), 1);
    assert_eq!(status.summary.total, 1);
}

#[test]
fn task_sla_status_for_number_preserves_empty_or_acl_restricted() {
    let parents = vec![parent("INC0000002", "incident", "parent-sys-empty")];
    let statuses = task_sla_statuses(&parents, &agreements_by_task(&Vec::new()));
    assert_eq!(statuses[0].readable, TaskSlaReadability::EmptyOrAclRestricted);
    assert_eq!(statuses[0].summary.total, 0);
    assert!(statuses[0].rows.is_empty());
}

#[test]
fn task_sla_status_for_number_returns_parent_not_found_without_sla_fetch() {
    let status = parent_not_found_status("INC0000009");
    assert_eq!(status.readable, TaskSlaReadability::ParentNotFound);
    assert_eq!(status.record_number, "INC0000009");
    assert!(status.record_table.is_empty());
    assert!(status.record_sys_id.is_empty());
}

#[test]
fn task_sla_status_for_number_returns_not_applicable_without_sla_fetch() {
    let parents = vec![parent("KB0000001", "kb_knowledge", "kb-sys-1")];
    assert!(applicable_ids(&parents).is_empty());
    let statuses = task_sla_statuses(&parents, &Vec::new());
    assert_eq!(statuses[0].readable, TaskSlaReadability::NotApplicable);
    assert_eq!(statuses[0].record_table, "kb_knowledge");
    assert_eq!(statuses[0].record_sys_id, "kb-sys-1");
}

#[test]
fn task_sla_status_for_tasks_batches_task_derived_parents_only() {
    let parents = vec![
        parent("INC0000001", "incident", "parent-sys-1"),
        parent("KB0000001", "kb_knowledge", "kb-sys-1"),
    ];
    assert_eq!(applicable_ids(&parents), vec!["parent-sys-1"]);
    let statuses = task_sla_statuses(&parents, &agreements_by_task(&vec![response_sla()]));
    assert_eq!(statuses[0].readable, TaskSlaReadability::ReadableRows);
    assert_eq!(statuses[1].readable, TaskSlaReadability::NotApplicable);
}
