use snow_core::choices::IncidentAssignmentGroupListError;
use snow_core::document::{
    deliver_with, replay_with, Delivery, DocumentPage, DocumentState, ResolvedContent, INLINE_BYTES,
    MAX_SESSIONS,
};
use snow_core::incident::PageLimits;
use snow_core::page_input::{
    validate_change_request_task_list, validate_incident_assignment_group_input,
    validate_list_input, validate_record_query, ChangeRequestTaskListInput,
    IncidentAssignmentGroupListInput, RecordQueryInput, TaskSelector,
};
use snow_core::record_query::{
    ChangeRequestQueryFilters, RecordPageRequest, RecordQueryError, ResolvedResourceFilter,
    StoryQueryFilters,
};
use snow_core::session::Sessions;

const ID: &str = "0123456789abcdef0123456789abcdef";
const GROUP: &str = "0000000000000000000000000000ab01";

fn s(text: &str) -> String {
    text.to_string()
}

fn no_story_filters() -> StoryQueryFilters {
    StoryQueryFilters {
        assignment_group: None,
        assigned_to: None,
        story_owner: None,
        lead_developer: None,
        states: None,
        sprint: None,
        project: None,
        cmdb_ci: None,
        blocked: None,
        due_date_after: None,
        due_date_before: None,
        updated_after: None,
        numbers: None,
        text: None,
    }
}

fn stories(filters: StoryQueryFilters, limit: Option<usize>, cursor: Option<&str>) -> RecordQueryInput {
    RecordQueryInput::Story {
        filters,
        include_description: false,
        limit,
        cursor: cursor.map(s),
    }
}

fn message(r: Result<RecordPageRequest, RecordQueryError>) -> String {
    match r {
        Err(RecordQueryError::InvalidParams(m)) => m,
        _ => panic!("was not refused"),
    }
}

#[test]
fn record_query_rejects_invalid_arguments_before_record_io() {
    let invalid = vec![
        stories(no_story_filters(), Some(0), None),
        stories(no_story_filters(), Some(201), None),
        stories(
            StoryQueryFilters {
                due_date_after: Some(s("2026-08-31")),
                due_date_before: Some(s("2026-08-01")),
                ..no_story_filters()
            },
            None,
            None,
        ),
        stories(
            StoryQueryFilters { states: Some(vec![s("New"), s(" new ")]), ..no_story_filters() },
            None,
            None,
        ),
        stories(
            StoryQueryFilters { numbers: Some(vec![s("INC1")]), ..no_story_filters() },
            None,
            None,
        ),
        stories(no_story_filters(), None, Some("not-a-sys-id")),
    ];
    let told: Vec<String> = invalid
        .into_iter()
        .map(|input| message(validate_record_query(input)))
        .collect();
    assert_eq!(
        told,
        vec![
            "limit must be between 1 and 200",
            "limit must be between 1 and 200",
            "due_date_after must be earlier than due_date_before",
            "states values must be non-empty and unique",
            "number must match ^STRY[0-9]+$",
            "sys_id must be exactly 32 ASCII hex characters",
        ]
    );
}

#[test]
fn record_query_uses_default_and_maximum_page_limits() {
    for (given, expected) in [(None, 50), (Some(200), 200)] {
        match validate_record_query(stories(no_story_filters(), given, None)) {
            Ok(RecordPageRequest::Story { limit, cursor, .. }) => {
                assert_eq!(limit, expected);
                assert_eq!(cursor, None);
            }
            _ => panic!("a page of stories"),
        }
    }
}

#[test]
fn accepted_requests_are_in_their_usual_spelling() {
    let change = RecordQueryInput::ChangeRequest {
        filters: ChangeRequestQueryFilters {
            assignment_group: Some(s("AAAAAAAAAAAAAAAAAAAAAAAAAAAAAAAA")),
            assigned_to: None,
            state: Some(s("in progress")),
            start_date_after: Some(s("2026-08-01")),
            start_date_before: Some(s("2026-08-31")),
        },
        limit: Some(1),
        cursor: Some(s("11111111111111111111111111111111")),
    };
    match validate_record_query(change) {
        Ok(RecordPageRequest::ChangeRequest { filters, limit, cursor }) => {
            assert_eq!(filters.assignment_group, Some(s("aaaaaaaaaaaaaaaaaaaaaaaaaaaaaaaa")));
            assert_eq!(filters.state, Some(s("in progress")));
            assert_eq!(filters.start_date_before, Some(s("2026-08-31")));
            assert_eq!(limit, 1);
            assert_eq!(cursor, Some(s("11111111111111111111111111111111")));
        }
        _ => panic!("a page of change requests"),
    }
    let story = StoryQueryFilters {
        states: Some(vec![s("New"), s(" 2 ")]),
        numbers: Some(vec![s("stry1"), s("STRY2")]),
        text: Some(s(" identity ")),
        ..no_story_filters()
    };
    match validate_record_query(stories(story, Some(2), None)) {
        Ok(RecordPageRequest::Story { filters, .. }) => {
            assert_eq!(filters.states, Some(vec![s("New"), s("2")]));
            assert_eq!(filters.numbers, Some(vec![s("STRY1"), s("STRY2")]));
            assert_eq!(filters.text, Some(s("identity")));
        }
        _ => panic!("a page of stories"),
    }
    let twice = StoryQueryFilters {
        numbers: Some(vec![s("stry1"), s("STRY1")]),
        ..no_story_filters()
    };
    assert_eq!(
        message(validate_record_query(stories(twice, None, None))),
        "numbers must be unique after normalization"
    );
    let nothing = StoryQueryFilters { states: Some(Vec::new()), ..no_story_filters() };
    assert_eq!(
        message(validate_record_query(stories(nothing, None, None))),
        "states must contain at least one value"
    );
    let elsewhere = StoryQueryFilters { sprint: Some(s("next")), ..no_story_filters() };
    assert_eq!(
        message(validate_record_query(stories(elsewhere, None, None))),
        "sprint must be a 32-hex sys_id"
    );
}

fn group_input() -> IncidentAssignmentGroupListInput {
    IncidentAssignmentGroupListInput {
        assignment_group_sys_id: s(GROUP),
        state: None,
        limit: None,
        cursor: None,
    }
}

#[test]
fn incident_group_page_rejects_bad_arguments_before_querying() {
    let limits = PageLimits { default_limit: 50, max_limit: 100 };
    let cases = vec![
        IncidentAssignmentGroupListInput { assignment_group_sys_id: String::new(), ..group_input() },
        IncidentAssignmentGroupListInput {
            assignment_group_sys_id: s("Network Support"),
            ..group_input()
        },
        IncidentAssignmentGroupListInput { cursor: Some(s("not-a-sys-id")), ..group_input() },
        IncidentAssignmentGroupListInput { limit: Some(0), ..group_input() },
        IncidentAssignmentGroupListInput { limit: Some(101), ..group_input() },
    ];
    for input in cases {
        assert!(matches!(
            validate_incident_assignment_group_input(&input, &limits),
            Err(IncidentAssignmentGroupListError::InvalidParams(_))
        ));
    }
    let input = IncidentAssignmentGroupListInput {
        assignment_group_sys_id: s(" 0000000000000000000000000000AB01 "),
        state: Some(s(" pending ")),
        ..group_input()
    };
    let accepted = validate_incident_assignment_group_input(&input, &limits).unwrap();
    assert_eq!(accepted.assignment_group_sys_id, GROUP);
    assert_eq!(accepted.state_selector, Some(s("pending")));
    assert_eq!(accepted.effective_limit, 50);
}

#[test]
fn tasks_are_those_of_a_change_request() {
    let limits = PageLimits { default_limit: 50, max_limit: 200 };
    let input = |number: &str, limit: Option<usize>| ChangeRequestTaskListInput {
        change_request_number: s(number),
        limit,
        cursor: None,
    };
    let accepted = validate_change_request_task_list(&input(" chg7 ", None), &limits).unwrap();
    assert_eq!(accepted.change_request_number, "CHG7");
    assert_eq!(accepted.limit, 50);
    for wrong in [input("INC7", None), input("CHG", None), input("CHG7", Some(0))] {
        assert!(matches!(
            validate_change_request_task_list(&wrong, &limits),
            Err(RecordQueryError::InvalidParams(_))
        ));
    }
}

#[test]
fn resource_plans_are_asked_for_by_ids() {
    let limits = PageLimits { default_limit: 50, max_limit: 200 };
    let anyone = || ResolvedResourceFilter::Anyone;
    let page = validate_list_input(
        TaskSelector::SysId(s("0123456789ABCDEF0123456789ABCDEF")),
        ResolvedResourceFilter::Group(s(GROUP)),
        Some(2),
        &limits,
    )
    .unwrap();
    assert!(matches!(page.task, TaskSelector::SysId(id) if id == ID));
    assert!(matches!(page.resource, ResolvedResourceFilter::Group(id) if id == GROUP));
    assert_eq!(page.limit, 2);
    let refused = |task: TaskSelector, resource: ResolvedResourceFilter, limit: Option<usize>| {
        validate_list_input(task, resource, limit, &limits).err().unwrap()
    };
    assert_eq!(
        refused(TaskSelector::Number(s("INC1")), anyone(), None),
        "parent_number must start with DMND or PRJ"
    );
    assert_eq!(
        refused(TaskSelector::SysId(s("x")), anyone(), None),
        "sys_id must be exactly 32 ASCII hex characters"
    );
    assert_eq!(
        refused(TaskSelector::Any, ResolvedResourceFilter::User(s("x")), None),
        "sys_id must be exactly 32 ASCII hex characters"
    );
    assert_eq!(refused(TaskSelector::Any, anyone(), Some(201)), "limit must be between 1 and 200");
}

fn content(text: String) -> ResolvedContent {
    ResolvedContent {
        sys_id: s(ID),
        table: s("incident"),
        resource_type: s("incident"),
        content: text,
    }
}

fn paged(delivery: Delivery) -> DocumentPage {
    match delivery {
        Delivery::Paged(page) => page,
        Delivery::Inline(_) => panic!("a long document"),
    }
}

#[test]
fn cursors_lead_from_page_to_page() {
    let mut store: Sessions<DocumentState> = Sessions::new();
    let text = "0123456789".repeat(INLINE_BYTES / 8);
    let delivered =
        deliver_with(&mut store, content(text.clone()), Some(s("found")), 1, s("doc"), s("p1"));
    let first = paged(delivered.unwrap());
    assert_eq!(first.cursor, Some(s("p1")));
    let starts: Vec<(String, usize)> = store.entries[0]
        .state
        .starts
        .iter()
        .map(|start| (start.token.clone(), start.offset))
        .collect();
    assert_eq!(starts, vec![(s("found"), 0), (s("p1"), 8192)]);

    let second = replay_with(&mut store, "p1", ID, 2, s("p2")).unwrap().unwrap();
    assert_eq!(second.offset_bytes, 8192);
    assert_eq!(second.cursor, Some(s("p2")));
    assert!(!store.entries[0].state.complete);
    // The token that stands already is given again.
    let again = replay_with(&mut store, "found", ID, 3, s("other")).unwrap().unwrap();
    assert_eq!(again.cursor, Some(s("p1")));
    assert_eq!(again.content, first.content);

    let mut whole = first.content + &second.content;
    let mut cursor = second.cursor;
    let mut n = 3;
    while let Some(c) = cursor {
        let page = replay_with(&mut store, &c, ID, 4, format!("p{n}")).unwrap().unwrap();
        whole.push_str(&page.content);
        cursor = page.cursor;
        n += 1;
    }
    assert_eq!(whole, text);
    assert!(store.entries[0].state.complete);
    assert!(replay_with(&mut store, "p1", ID, 4 + 300_000, s("late")).is_none());
}

#[test]
fn documents_that_are_being_read_are_not_given_up() {
    let mut store: Sessions<DocumentState> = Sessions::new();
    let text = || content("x".repeat(INLINE_BYTES + 1));
    for i in 0..MAX_SESSIONS {
        let page = deliver_with(&mut store, text(), None, 1, format!("t{i}"), format!("p{i}"));
        assert!(page.is_ok());
    }
    // One document is read to its end, and is given up for the next one.
    let mut cursor = Some(s("p5"));
    let mut n = 0;
    while let Some(c) = cursor {
        let page = replay_with(&mut store, &c, ID, 2, format!("more{n}")).unwrap().unwrap();
        cursor = page.cursor;
        n += 1;
    }
    let page = deliver_with(&mut store, text(), None, 3, s("new"), s("pnew"));
    assert!(page.is_ok());
    assert!(replay_with(&mut store, "p5", ID, 3, s("x")).is_none());
    for i in 0..MAX_SESSIONS {
        if i != 5 {
            assert!(replay_with(&mut store, &format!("p{i}"), ID, 3, format!("y{i}")).is_some());
        }
    }
}
