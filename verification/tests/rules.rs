use snow_core::catalog_items::{catalog_item_form, variable_set_query};
use snow_core::catalog_request::request_item_query;
use snow_core::incident::{
    incident_number_query, incident_read_form, normalize_incident_numbers,
    normalize_optional_sys_id, normalize_priorities, normalize_unique_non_empty,
    validate_incident_timestamp, validate_time_range, IncidentReadError,
};
use snow_core::query::{DisplayMode, Operator, Query};
use snow_core::paths::strip_root;
use snow_core::queue_items::{departure_queries, incident_assignee_label};
use snow_core::record_error::{actual_table, validate_identity, RecordResolveError};
use snow_core::record_query::{
    change_tasks_plan, record_plan, story_fields, ChangeRequestQueryFilters, RecordPageFields,
    RecordPageRequest, StoryQueryFilters,
};
use snow_core::record_types::{literal, prefix_query};
use snow_core::row::{Cell, Failure, Row};
use snow_core::semantic::{check_vector_count, next_batch_end};
use snow_core::server::{server_base_query, ServerQuery};
use snow_core::split::{split_once, split_text, Separator};
use snow_core::text::{
    byte_length, control, decimal_text, identifier, less_text, lower_text, same_any_case,
    trim_text, upper_text, white_space,
};
use snow_core::timecard::{card_form, judge_card_read, sheet_cards_query, week_start_text};
use snow_core::types::{
    exact_number_result, latest_activity, JournalEntry, MatchField, RecordRef, SearchMatchReason,
};
use snow_core::user::{bool_field, given_text};
use snow_core::vault::{alias_rows, keyword_rows, EnrichmentCandidate};
use snow_core::work::{is_terminal_state, page_mark, row_field_is_false, row_is_open};

const ID: &str = "0123456789abcdef0123456789abcdef";

fn s(text: &str) -> String {
    text.to_string()
}

fn cell(name: &str, raw: &str) -> Cell {
    Cell {
        name: s(name),
        raw: Some(s(raw)),
        display: None,
        other: None,
    }
}

fn row(table: &str, sys_id: &str, cells: Vec<Cell>) -> Row {
    Row {
        table: s(table),
        sys_id: s(sys_id),
        cells,
    }
}

fn condition(query: &Query, at: usize) -> (String, Operator, String) {
    let c = &query.conditions[at];
    (c.field.clone(), c.operator, c.value.clone())
}

#[test]
fn texts_are_trimmed_of_every_white_space() {
    for c in [' ', '\t', '\n', '\u{0b}', '\u{0c}', '\r', '\u{85}', '\u{a0}', '\u{2003}', '\u{3000}'] {
        assert!(white_space(c), "{:?}", c);
        assert_eq!(white_space(c), c.is_whitespace());
    }
    assert!(!white_space('\u{200b}'));
    assert_eq!(trim_text("\u{3000} a b\u{a0}\n"), "a b");
    assert_eq!(trim_text(" \t "), "");
}

#[test]
fn white_space_and_controls_agree_with_the_language() {
    let mut code: u32 = 0;
    while code < 0x3100 {
        if let Some(c) = char::from_u32(code) {
            assert_eq!(white_space(c), c.is_whitespace(), "{}", code);
            assert_eq!(control(c), c.is_control(), "{}", code);
        }
        code += 1;
    }
}

#[test]
fn case_is_changed_in_ascii_only() {
    assert_eq!(lower_text("ÄBC-\u{212a}"), "Äbc-\u{212a}");
    assert_eq!(upper_text("äbc"), "äBC");
    assert!(same_any_case("InCiDeNt", "incident"));
    assert!(!same_any_case("Ä", "ä"));
}

#[test]
fn texts_are_ordered_as_bytes() {
    assert!(less_text("a", "b"));
    assert!(less_text("a", "aa"));
    assert!(!less_text("a", "a"));
    assert!(less_text("Z", "a"));
    assert!(less_text("z", "é"));
    assert!(less_text("\u{ffff}", "\u{10000}"));
}

#[test]
fn bytes_of_a_text_are_counted() {
    for text in ["", "abc", "é", "\u{7ff}\u{800}", "\u{ffff}\u{10000}", "a€😀"] {
        assert_eq!(byte_length(text), text.len(), "{}", text);
    }
}

#[test]
fn numbers_are_written_in_decimal() {
    assert_eq!(decimal_text(0), "0");
    assert_eq!(decimal_text(1000), "1000");
    assert_eq!(decimal_text(u64::MAX), "18446744073709551615");
}

#[test]
fn identifiers_are_words_of_bounded_length() {
    assert!(identifier("cmdb_ci_win_server"));
    assert!(identifier("U1"));
    assert!(!identifier(""));
    assert!(!identifier("a-b"));
    assert!(!identifier("é"));
    assert!(identifier(&"a".repeat(160)));
    assert!(!identifier(&"a".repeat(161)));
}

#[test]
fn texts_are_split_at_separators() {
    assert_eq!(split_text("a^b^^c", Separator::Caret), vec!["a", "b", "", "c"]);
    assert_eq!(split_text("", Separator::Slash), vec![""]);
    assert_eq!(split_once("a!=b=c", "!="), Some((s("a"), s("b=c"))));
    assert_eq!(split_once("abc", "="), None);
}

#[test]
fn a_literal_is_trimmed_and_free_of_query_syntax() {
    assert_eq!(literal("  Change Request ").ok(), Some(s("Change Request")));
    for bad in ["", "  ", "a^b", "javascript:x", "JavaScript:x", "${x}", "a\u{7}b"] {
        match literal(bad) {
            Err(RecordResolveError::InvalidParams(message)) => assert_eq!(
                message,
                "record type must be a literal table name, label, reference field, or number prefix"
            ),
            other => panic!("{:?} {:?}", bad, other),
        }
    }
    assert!(literal(&"é".repeat(80)).is_ok());
    assert!(literal(&"é".repeat(81)).is_err());
}

#[test]
fn prefixes_are_asked_for_one_more_than_are_told_apart() {
    let q = prefix_query("INC");
    assert_eq!(q.table, "sys_number");
    assert_eq!(condition(&q, 0), (s("prefix"), Operator::Equals, s("INC")));
    assert_eq!(q.fields, vec!["prefix", "category"]);
    assert_eq!(q.limit, Some(21));
    assert!(q.without_count);
}

#[test]
fn identities_are_compared_without_case() {
    let found = row("task", &ID.to_uppercase(), vec![]);
    assert!(validate_identity(&found, ID).is_ok());
    match validate_identity(&row("task", "other", vec![]), ID) {
        Err(RecordResolveError::Integrity(message)) => {
            assert_eq!(message, "provider returned a different sys_id")
        }
        other => panic!("{:?}", other),
    }
}

#[test]
fn the_class_of_a_row_is_its_own_or_its_tables() {
    let plain = row("kb_knowledge", ID, vec![]);
    assert_eq!(actual_table(&plain).ok(), Some(s("kb_knowledge")));
    let empty = row("kb_knowledge", ID, vec![cell("sys_class_name", "")]);
    assert_eq!(actual_table(&empty).ok(), Some(s("kb_knowledge")));
    let child = row("task", ID, vec![cell("sys_class_name", "incident")]);
    assert_eq!(actual_table(&child).ok(), Some(s("incident")));
}

#[test]
fn a_hidden_or_unreadable_class_is_an_error() {
    for table in ["task", "cmdb_ci", "sys_metadata"] {
        for cells in [vec![], vec![cell("sys_class_name", "")]] {
            match actual_table(&row(table, ID, cells)) {
                Err(RecordResolveError::Unavailable(message)) => assert!(
                    message.starts_with("parent record is readable but its actual object class")
                ),
                other => panic!("{:?}", other),
            }
        }
    }
    let unreadable = Cell {
        name: s("sys_class_name"),
        raw: None,
        display: None,
        other: Some(s("null")),
    };
    match actual_table(&row("incident", ID, vec![unreadable])) {
        Err(RecordResolveError::Integrity(message)) => {
            assert_eq!(message, "provider returned an unreadable object class")
        }
        other => panic!("{:?}", other),
    }
    match actual_table(&row("incident", ID, vec![cell("sys_class_name", "a b")])) {
        Err(RecordResolveError::Integrity(message)) => {
            assert_eq!(message, "provider returned an invalid object class")
        }
        other => panic!("{:?}", other),
    }
}

#[test]
fn known_incidents_are_looked_up_a_hundred_at_a_time() {
    let known: Vec<String> = (0..250).map(|i| format!("{:032x}", i)).collect();
    let queries = departure_queries(&known);
    assert_eq!(queries.len(), 3);
    let limits: Vec<Option<u32>> = queries.iter().map(|q| q.limit).collect();
    assert_eq!(limits, vec![Some(100), Some(100), Some(50)]);
    assert_eq!(
        condition(&queries[2], 0),
        (s("sys_id"), Operator::In, known[200..].join(","))
    );
    assert_eq!(queries[0].fields, vec!["sys_id", "state", "active", "assignment_group"]);
    assert!(departure_queries(&Vec::new()).is_empty());
    assert_eq!(departure_queries(&known[..100].to_vec()).len(), 1);
}

#[test]
fn assignees_without_a_name_are_unassigned() {
    assert_eq!(incident_assignee_label(Some("Ada")), "Ada");
    assert_eq!(incident_assignee_label(Some("  ")), "unassigned");
    assert_eq!(incident_assignee_label(None), "unassigned");
}

#[test]
fn incident_numbers_are_checked_and_distinct() {
    let given = vec![s(" inc0010001 "), s("INC0010002")];
    assert_eq!(
        normalize_incident_numbers(&given).ok(),
        Some(vec![s("INC0010001"), s("INC0010002")])
    );
    match normalize_incident_numbers(&vec![s("INC0010001"), s("inc0010001")]) {
        Err(IncidentReadError::InvalidParams(message)) => {
            assert_eq!(message, "numbers must be unique after normalization")
        }
        other => panic!("{:?}", other),
    }
    for bad in ["CHG0010001", "INC", "INC12a", ""] {
        assert!(matches!(
            normalize_incident_numbers(&vec![s(bad)]),
            Err(IncidentReadError::InvalidParams(_))
        ));
    }
}

#[test]
fn filter_lists_are_trimmed_distinct_and_bounded() {
    let given = vec![s(" open "), s("new")];
    assert_eq!(
        normalize_unique_non_empty(&given, "states", 2).ok(),
        Some(vec![s("open"), s("new")])
    );
    for bad in [vec![s(" ")], vec![s("open"), s(" open")]] {
        match normalize_unique_non_empty(&bad, "states", 2) {
            Err(IncidentReadError::InvalidParams(message)) => {
                assert_eq!(message, "states values must be non-empty and unique")
            }
            other => panic!("{:?}", other),
        }
    }
    match normalize_unique_non_empty(&given, "states", 1) {
        Err(IncidentReadError::InvalidParams(message)) => {
            assert_eq!(message, "states accepts at most 1 values")
        }
        other => panic!("{:?}", other),
    }
    assert_eq!(
        normalize_priorities(&vec![3, 1]).ok(),
        Some(vec![s("3"), s("1")])
    );
    assert!(normalize_priorities(&vec![3, 1, 3]).is_err());
    assert!(normalize_priorities(&vec![0]).is_err());
    assert!(normalize_priorities(&vec![6]).is_err());
}

#[test]
fn optional_ids_and_times_are_checked_where_given() {
    assert_eq!(normalize_optional_sys_id(&None, "caller_id").ok(), Some(None));
    assert_eq!(
        normalize_optional_sys_id(&Some(ID.to_uppercase()), "caller_id").ok(),
        Some(Some(s(ID)))
    );
    assert!(normalize_optional_sys_id(&Some(s("x")), "caller_id").is_err());
    let good = Some(s("2026-01-31 23:59:59"));
    assert_eq!(
        validate_incident_timestamp(&good, "opened_after").ok(),
        Some(good.clone())
    );
    for bad in ["2026-02-30 00:00:00", "2026-01-31", "yesterday"] {
        assert!(validate_incident_timestamp(&Some(s(bad)), "opened_after").is_err());
    }
}

#[test]
fn a_time_range_must_not_be_empty() {
    let early = Some(s("2026-01-01 00:00:00"));
    let late = Some(s("2026-01-02 00:00:00"));
    assert!(validate_time_range(&early, &late, "opened").is_ok());
    assert!(validate_time_range(&early, &None, "opened").is_ok());
    assert!(validate_time_range(&late, &early, "opened").is_err());
    assert!(validate_time_range(&early, &early, "opened").is_err());
}

#[test]
fn rows_are_read_in_both_forms() {
    let incident = incident_read_form();
    assert_eq!(incident.table, "incident");
    assert_eq!(incident.display, DisplayMode::Both);
    assert!(incident.without_links);
    let number = incident_number_query("INC1");
    assert_eq!(condition(&number, 0), (s("number"), Operator::Equals, s("INC1")));
    assert_eq!(number.limit, Some(2));
    let item = catalog_item_form();
    assert_eq!(item.table, "sc_cat_item");
    assert_eq!(
        item.fields,
        vec!["sys_id", "name", "short_description", "sys_class_name", "active"]
    );
    let card = card_form("time_card");
    assert_eq!(card.table, "time_card");
    assert_eq!(card.fields.len(), 23);
    assert_eq!(card.fields[1], "time_sheet");
}

#[test]
fn the_parts_of_an_order_are_asked_for() {
    let item = request_item_query("req-sys");
    assert_eq!(item.table, "sc_req_item");
    assert_eq!(condition(&item, 0), (s("request"), Operator::Equals, s("req-sys")));
    let sets = variable_set_query("item-sys");
    assert_eq!(sets.table, "io_set_item");
    assert_eq!(condition(&sets, 0), (s("sc_cat_item"), Operator::Equals, s("item-sys")));
    assert_eq!(sets.limit, Some(200));
    let cards = sheet_cards_query("time_card", "sheet-sys");
    assert_eq!(condition(&cards, 0), (s("time_sheet"), Operator::Equals, s("sheet-sys")));
    assert_eq!(cards.limit, Some(500));
}

#[test]
fn a_card_that_is_not_there_is_no_failure() {
    assert!(matches!(judge_card_read(Err(Failure::Api(404))), Ok(None)));
    assert!(matches!(judge_card_read(Err(Failure::Api(403))), Err(Failure::Api(403))));
    assert!(matches!(judge_card_read(Err(Failure::Http)), Err(Failure::Http)));
    let found = judge_card_read(Ok(row("time_card", "card-1", vec![])));
    assert!(matches!(found, Ok(Some(r)) if r.sys_id == "card-1"));
}

#[test]
fn the_start_of_a_week_is_read_raw_first() {
    let both = Cell {
        name: s("week_starts_on"),
        raw: Some(s("2026-06-01")),
        display: Some(s("01/06/2026")),
        other: None,
    };
    assert_eq!(week_start_text(&row("time_sheet", "a", vec![both])), Some("2026-06-01"));
    let shown = Cell {
        name: s("week_starts_on"),
        raw: None,
        display: Some(s("01/06/2026")),
        other: None,
    };
    assert_eq!(week_start_text(&row("time_sheet", "a", vec![shown])), Some("01/06/2026"));
    assert_eq!(week_start_text(&row("time_sheet", "a", vec![])), None);
}

#[test]
fn a_server_search_names_its_filters() {
    let wanted = ServerQuery {
        name: Some(s("app01")),
        ip_address: Some(s("192.0.2.10")),
        class: Some(s("cmdb_ci_linux_server")),
        text: Some(s("ignored")),
        ci_owner_group: None,
    };
    let q = server_base_query(&wanted, &vec![s("cmdb_ci_win_server")], 25);
    assert_eq!(
        condition(&q, 0),
        (s("sys_class_name"), Operator::Equals, s("cmdb_ci_linux_server"))
    );
    assert_eq!(condition(&q, 1), (s("name"), Operator::Contains, s("app01")));
    assert_eq!(condition(&q, 2), (s("ip_address"), Operator::Equals, s("192.0.2.10")));
    assert_eq!(q.conditions.len(), 3);
    assert_eq!(q.limit, Some(25));
    assert_eq!(q.offset, None);
}

#[test]
fn every_filter_of_stories_becomes_a_condition() {
    let filters = StoryQueryFilters {
        assignment_group: Some(s("g")),
        assigned_to: Some(s("u")),
        story_owner: Some(s("o")),
        lead_developer: Some(s("l")),
        states: None,
        sprint: Some(s("sp")),
        project: Some(s("p")),
        cmdb_ci: Some(s("ci")),
        blocked: Some(true),
        due_date_after: Some(s("2026-01-01")),
        due_date_before: Some(s("2026-02-01")),
        updated_after: Some(s("2026-01-05 00:00:00")),
        numbers: Some(vec![s("STRY1"), s("STRY2")]),
        text: Some(s("login")),
    };
    let request = RecordPageRequest::Story {
        filters,
        include_description: true,
        limit: 50,
        cursor: Some(s(ID)),
    };
    let fields = RecordPageFields {
        change_request: vec![],
        story: vec![s("sys_id"), s("number")],
        story_description: vec![s("sys_id"), s("number"), s("description")],
    };
    let q = match record_plan(&request, &fields, &Vec::new()) {
        Ok(q) => q,
        Err(e) => panic!("{:?}", e),
    };
    let names: Vec<&str> = q.conditions.iter().map(|c| c.field.as_str()).collect();
    assert_eq!(
        names,
        vec![
            "assignment_group",
            "assigned_to",
            "u_story_owner",
            "u_lead_dev",
            "sprint",
            "project",
            "cmdb_ci",
            "blocked",
            "due_date",
            "due_date",
            "sys_updated_on",
            "number",
            "short_description",
            "sys_id"
        ]
    );
    assert_eq!(q.limit, Some(50));
    assert_eq!(q.order.len(), 1);
    assert_eq!(q.order[0].field, "sys_id");
}

#[test]
fn pages_of_changes_and_of_their_tasks_go_on_behind_a_row() {
    let request = RecordPageRequest::ChangeRequest {
        filters: ChangeRequestQueryFilters {
            assignment_group: None,
            assigned_to: Some(s("u")),
            state: None,
            start_date_after: Some(s("2026-01-01")),
            start_date_before: None,
        },
        limit: 10,
        cursor: Some(s(ID)),
    };
    let fields = RecordPageFields {
        change_request: vec![s("sys_id")],
        story: vec![],
        story_description: vec![],
    };
    let q = match record_plan(&request, &fields, &Vec::new()) {
        Ok(q) => q,
        Err(e) => panic!("{:?}", e),
    };
    assert_eq!(condition(&q, 0), (s("assigned_to"), Operator::Equals, s("u")));
    assert_eq!(condition(&q, 1), (s("start_date"), Operator::GreaterThan, s("2026-01-01")));
    assert_eq!(condition(&q, 2), (s("sys_id"), Operator::GreaterThan, s(ID)));

    let tasks = change_tasks_plan("CHG1", &vec![s("sys_id")], 5, &None);
    assert_eq!(tasks.table, "change_task");
    assert_eq!(
        condition(&tasks, 0),
        (s("change_request.number"), Operator::Equals, s("CHG1"))
    );
    assert_eq!(tasks.conditions.len(), 1);
    assert_eq!(tasks.limit, Some(5));
}

#[test]
fn descriptions_of_stories_are_read_on_demand() {
    let usual = vec![s("number")];
    let more = vec![s("description")];
    assert_eq!(story_fields(&usual, &more, false), usual);
    assert!(story_fields(&usual, &more, true).contains(&s("description")));
}

#[test]
fn the_latest_entry_of_both_journals_is_found() {
    let entry = |timestamp: i64, body: &str| JournalEntry {
        timestamp,
        author: s("a"),
        body: s(body),
    };
    let notes = vec![entry(5, "n5"), entry(9, "n9")];
    let comments = vec![entry(7, "c7"), entry(9, "c9")];
    assert_eq!(latest_activity(&notes, &comments), Some(entry(9, "c9")));
    assert_eq!(latest_activity(&notes, &vec![]), Some(entry(9, "n9")));
    assert_eq!(latest_activity(&vec![], &vec![]), None);
}

#[test]
fn a_search_by_number_explains_itself() {
    let record = RecordRef {
        sys_id: s("sys"),
        number: s("INC1"),
        table: s("incident"),
    };
    let found = exact_number_result(record, s("Mail is down"));
    assert_eq!(found.score, 30);
    assert_eq!(found.match_in, MatchField::Number);
    assert_eq!(found.matched_value, Some(s("INC1")));
    assert_eq!(found.reasons.len(), 1);
    assert_eq!(found.reasons[0].value, "INC1");
    let reasons = vec![SearchMatchReason {
        field: MatchField::Tag,
        value: s("mail"),
    }];
    let other = found.with_score(7).with_explanation(None, reasons);
    assert_eq!(other.score, 7);
    assert_eq!(other.matched_value, None);
    assert_eq!(other.reasons[0].field, MatchField::Tag);
    assert_eq!(other.snippet, "Mail is down");
}

#[test]
fn enrichment_keeps_its_origin() {
    let candidate = |value: &str| EnrichmentCandidate {
        value: s(value),
        origin: s("title"),
        weight: 3u8,
    };
    let keywords = keyword_rows("sys", vec![candidate("mail"), candidate("vpn")]);
    assert_eq!(keywords.len(), 2);
    assert_eq!(keywords[1].keyword, "vpn");
    assert_eq!(keywords[1].source, "title");
    assert_eq!(keywords[1].weight, 3);
    let aliases = alias_rows("sys", vec![candidate("post")]);
    assert_eq!(aliases[0].alias, "post");
    assert_eq!(aliases[0].kind, "title");
    assert_eq!(aliases[0].source, "title");
    assert_eq!(aliases[0].record_sys_id, "sys");
}

#[test]
fn truth_is_read_from_every_form_of_a_field() {
    let with = |raw: Option<&str>, display: Option<&str>, other: Option<&str>| {
        row(
            "sys_user",
            "u",
            vec![Cell {
                name: s("active"),
                raw: raw.map(s),
                display: display.map(s),
                other: other.map(s),
            }],
        )
    };
    assert_eq!(bool_field(&with(Some(" YES "), None, None), "active"), Some(true));
    assert_eq!(bool_field(&with(Some("0"), Some("true"), None), "active"), Some(false));
    assert_eq!(bool_field(&with(Some("maybe"), Some("no"), None), "active"), Some(false));
    assert_eq!(bool_field(&with(None, Some("no"), Some("true")), "active"), Some(true));
    assert_eq!(bool_field(&with(None, Some("1"), Some("7")), "active"), Some(true));
    assert_eq!(bool_field(&with(None, None, None), "active"), None);
    assert_eq!(bool_field(&row("sys_user", "u", vec![]), "active"), None);
}

#[test]
fn given_texts_are_trimmed_and_not_blank() {
    assert_eq!(given_text(Some(" a ")), Some(s("a")));
    assert_eq!(given_text(Some("  ")), None);
    assert_eq!(given_text(None), None);
}

#[test]
fn open_work_is_neither_terminal_nor_inactive() {
    let terminal = vec![s("closed"), s("resolved")];
    assert!(is_terminal_state(Some("Closed"), &terminal));
    assert!(!is_terminal_state(Some("New"), &terminal));
    assert!(!is_terminal_state(None, &terminal));
    let open = row("incident", "a", vec![cell("state", "New"), cell("active", "true")]);
    assert!(row_is_open(&open, &terminal));
    let closed = row("incident", "a", vec![cell("state", "closed"), cell("active", "true")]);
    assert!(!row_is_open(&closed, &terminal));
    let inactive = row("incident", "a", vec![cell("state", "New"), cell("active", "false")]);
    assert!(row_field_is_false(&inactive, "active"));
    assert!(!row_is_open(&inactive, &terminal));
}

#[test]
fn a_full_page_goes_on_behind_its_last_row() {
    let rows = vec![row("incident", "a", vec![]), row("incident", "b", vec![])];
    let full = page_mark(&rows, 2);
    assert!(!full.complete);
    assert_eq!(full.next_cursor, Some(s("b")));
    let last = page_mark(&rows, 3);
    assert!(last.complete);
    assert_eq!(last.next_cursor, None);
    assert_eq!(last.rows_inspected, 2);
}

#[test]
fn embedding_batches_are_cut_and_counted() {
    assert_eq!(next_batch_end(0, 5, 2), 2);
    assert_eq!(next_batch_end(4, 5, 2), 5);
    assert_eq!(next_batch_end(0, 5, 0), 1);
    assert!(check_vector_count(2, 2).is_ok());
    assert_eq!(
        check_vector_count(1, 2).err(),
        Some(s("semantic embedding provider returned 1 vectors for 2 inputs"))
    );
}

#[test]
fn paths_are_seen_from_their_directory() {
    let root = "knowledge/bases/kb_1_it";
    assert_eq!(
        strip_root("knowledge/bases/kb_1_it/mail/KB1.md", root),
        Some(s("mail/KB1.md"))
    );
    assert_eq!(strip_root("knowledge/bases/kb_1_item/KB1.md", root), None);
    assert_eq!(strip_root(root, root), Some(s("")));
    assert_eq!(strip_root("knowledge", root), None);
}

#[test]
fn odd_paths_are_seen_as_the_language_sees_them() {
    let paths = [
        "", ".", "./", "/", "//", "/.", "a", "a/", "a/.", "./a", "./a/", "/a", "/a/b", "//a//b//",
        "a/b", "a//b", "a/./b", "a/b/c", "a/b/./", "a/../b", "..", "../a", ".a/b", "./././a/b",
        "a/b/.c", "/./a", "ab/c", "é/ü",
    ];
    for path in paths {
        for root in paths {
            let expected = std::path::Path::new(path)
                .strip_prefix(root)
                .ok()
                .map(|rest| rest.to_string_lossy().into_owned());
            assert_eq!(strip_root(path, root), expected, "{:?} below {:?}", path, root);
        }
    }
}

#[test]
fn pages_read_by_cursor_give_every_row_once() {
    let table = ["a1", "a2", "b1", "b2", "c"];
    for limit in 1..7 {
        let mut read: Vec<String> = Vec::new();
        let mut cursor: Option<String> = None;
        loop {
            let rows: Vec<Row> = table
                .iter()
                .filter(|id| cursor.as_deref().map_or(true, |c| c < **id))
                .take(limit)
                .map(|id| row("incident", id, vec![]))
                .collect();
            let mark = page_mark(&rows, limit);
            read.extend(rows.iter().map(|r| r.sys_id.clone()));
            cursor = mark.next_cursor;
            if cursor.is_none() {
                break;
            }
        }
        assert_eq!(read, table);
    }
}
