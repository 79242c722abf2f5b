use snow_core::embedding_run::EmbeddingRun;
use snow_core::id_search::{IdSearch, IdStage};
use snow_core::incident_queue::IncidentSlaBucket;
use snow_core::knowledge_service::{KnowledgeService, TagRow};
use snow_core::knowledge_sync::{is_duration_readable, WatermarkProgress};
use snow_core::my_work::{record_is_open, sort_records_by_number};
use snow_core::name_search::{NameCall, NameStage};
use snow_core::queue_items::{
    queue_item, sort_incident_queue_items, IncidentQueueSortBy, IncidentQueueSortDirection,
};
use snow_core::record_name_resolver::{
    open_name_search, park_name, NameSearch, RecordNameMatch, TableOutcome,
};
use snow_core::record_resolver::{
    open_search, park, probe_of, Probe, SearchEnd, SearchState, PRIORITY_TABLES, PROBE_BUDGET,
};
use snow_core::record_service::is_exact_record_number;
use snow_core::row::{Cell, Failure, Page, Row};
use snow_core::semantic::{
    noted_rebuild, EmbeddingInput, EmbeddingRow, KnowledgeEmbeddingCoverage,
};
use snow_core::server::{hydrated, kept_server, ServerGetError};
use snow_core::session::Sessions;
use snow_core::types::{FieldValue, NamedField, RecordTexts, SnowRecord};

const ID: &str = "0123456789abcdef0123456789abcdef";

fn s(text: &str) -> String {
    text.to_string()
}

fn cell(name: &str, raw: &str) -> Cell {
    Cell { name: s(name), raw: Some(s(raw)), display: None, other: None }
}

fn row(table: &str, sys_id: &str, cells: Vec<Cell>) -> Row {
    Row { table: s(table), sys_id: s(sys_id), cells }
}

fn names() -> Vec<String> {
    (0..70).map(|i| format!("t{i:02}")).collect()
}

/// The page of the catalog behind a name.
fn catalog_page(after: &str) -> Page {
    let rows = names()
        .into_iter()
        .filter(|name| name.as_str() > after)
        .take(32)
        .map(|name| row("sys_db_object", "x", vec![cell("name", &name)]))
        .collect();
    Page { rows, partial: false }
}

#[test]
fn absence_is_told_once_every_table_was_asked() {
    let mut sessions: Sessions<SearchState> = Sessions::new();
    let mut cursor: Option<String> = None;
    let mut asked: Vec<String> = Vec::new();
    let mut calls = 0;
    loop {
        let state = open_search(&mut sessions, &cursor, ID, 1).unwrap();
        let scanned_before = state.scanned;
        let mut search = IdSearch::begin(state);
        loop {
            let tables = match &search.stage {
                IdStage::Catalog => None,
                IdStage::Probe { tables } => Some(tables.clone()),
                IdStage::Spent => break,
                _ => panic!("nothing is to be found"),
            };
            search = match tables {
                None => {
                    let page = catalog_page(&search.state.after);
                    search.take_catalog(Ok(page)).unwrap()
                }
                Some(tables) => {
                    let probes: Vec<Probe> = tables
                        .iter()
                        .map(|table| {
                            let status = if table == "t03" { 403 } else { 404 };
                            probe_of(Err(Failure::Api(status)))
                        })
                        .collect();
                    asked.extend(tables);
                    search.take_probes(probes).unwrap()
                }
            };
        }
        assert!(search.state.scanned - scanned_before <= PROBE_BUDGET);
        calls += 1;
        match park(&mut sessions, cursor.clone(), search.state, 1).unwrap() {
            SearchEnd::Searching { cursor: given, scanned_tables, .. } => {
                assert_eq!(scanned_tables, asked.len());
                if let Some(before) = &cursor {
                    assert_eq!(&given, before);
                }
                cursor = Some(given);
            }
            SearchEnd::NotFound { scanned_tables, unreadable_tables } => {
                assert_eq!(scanned_tables, asked.len());
                assert_eq!(unreadable_tables, 1);
                break;
            }
        }
    }
    let mut expected: Vec<String> = PRIORITY_TABLES.iter().map(|t| s(t)).collect();
    expected.extend(names());
    assert_eq!(asked, expected);
    assert_eq!(calls, 3);
    assert_eq!(sessions.entries.len(), 0);
}

#[test]
fn replies_of_tables_are_told_apart() {
    assert!(matches!(probe_of(Ok(row("task", ID, Vec::new()))), Probe::Found(_)));
    assert!(matches!(probe_of(Err(Failure::Api(404))), Probe::Missing));
    assert!(matches!(probe_of(Err(Failure::Api(500))), Probe::Unreadable));
    assert!(matches!(probe_of(Err(Failure::TimedOut)), Probe::Unreadable));
    assert!(matches!(probe_of(Err(Failure::Auth(None))), Probe::Unreadable));
}

fn candidate(sys_id: &str, table: &str) -> RecordNameMatch {
    RecordNameMatch {
        sys_id: s(sys_id),
        table: s(table),
        resource_type: s(table),
        name: s("printer"),
        number: None,
        matched_fields: vec![s("name")],
    }
}

#[test]
fn name_pages_hold_each_record_once() {
    let mut sessions: Sessions<NameSearch> = Sessions::new();
    let mut cursor: Option<String> = None;
    let mut came: Vec<String> = Vec::new();
    let mut searched: Vec<String> = Vec::new();
    loop {
        let search = open_name_search(&mut sessions, &cursor, "printer", &None, 1).unwrap();
        let mut call = NameCall::begin(search);
        loop {
            call = match &call.stage {
                NameStage::End => break,
                NameStage::Catalog => {
                    let page = catalog_page(&call.search.catalog_after);
                    call.take_catalog(Ok(page)).unwrap()
                }
                NameStage::Table(table) => {
                    let name = table.table.clone();
                    searched.push(name.clone());
                    let matches = match name.as_str() {
                        "t01" => vec![candidate("a", &name), candidate("b", &name)],
                        "t02" => vec![candidate("b", &name), candidate("c", &name)],
                        _ => Vec::new(),
                    };
                    let found =
                        TableOutcome::Found { matches, next: None, metadata_complete: true };
                    call.take_table(found).unwrap()
                }
            };
        }
        let page = park_name(&mut sessions, call.search, call.records, 1).unwrap();
        came.extend(page.records.iter().map(|r| r.sys_id.clone()));
        assert_eq!(page.match_count, came.len());
        assert_eq!(page.complete, page.cursor.is_none() && page.unreadable_tables == 0);
        match page.cursor {
            Some(next) => cursor = Some(next),
            None => break,
        }
    }
    assert_eq!(came, vec!["a", "b", "c"]);
    for name in names() {
        assert_eq!(searched.iter().filter(|t| **t == name).count(), 1);
    }
}

fn wanted(id: &str, hash: &str) -> EmbeddingInput {
    EmbeddingInput {
        record_sys_id: s(id),
        coverage: KnowledgeEmbeddingCoverage::FullText,
        content_hash: s(hash),
        input: s("text"),
    }
}

#[test]
fn a_second_run_embeds_nothing() {
    let inputs = || vec![wanted("a", "1"), wanted("b", "2"), wanted("c", "3")];
    let mut rows: Vec<EmbeddingRow> = Vec::new();
    let mut run = EmbeddingRun::start(false, inputs(), &rows, "m", "ollama", 2);
    while let Some(batch) = run.batch() {
        let dimensions = vec![4; batch.len()];
        let (next, stored) = run.take(&dimensions).unwrap();
        rows.extend(stored);
        run = next;
    }
    assert_eq!(run.indexed_rows(), 3);
    let again = EmbeddingRun::start(false, inputs(), &rows, "m", "ollama", 2);
    assert!(again.batch().is_none());
    assert_eq!(again.indexed_rows(), 0);
    let anew = EmbeddingRun::start(true, inputs(), &rows, "m", "ollama", 2);
    assert_eq!(anew.pending.len(), 3);
    let other = EmbeddingRun::start(false, inputs(), &rows, "m2", "ollama", 2);
    assert_eq!(other.pending.len(), 3);
}

#[test]
fn rebuilds_are_noted() {
    let done = noted_rebuild(Ok(7));
    assert_eq!((done.last_rebuild_at, done.last_error), (Some(7), None));
    let failed = noted_rebuild(Err(s("down")));
    assert_eq!((failed.last_rebuild_at, failed.last_error), (None, Some(s("down"))));
}

#[test]
fn watermarks_are_the_latest_article() {
    let seen = [
        ("2026-01-02 00:00:00", "b"),
        ("2026-01-03 00:00:00", "a"),
        ("2026-01-03 00:00:00", "c"),
        ("2026-01-03 00:00:00", "b"),
        ("2026-01-01 00:00:00", "z"),
        ("", "y"),
    ];
    let mut progress = WatermarkProgress::new();
    for (at, id) in seen {
        progress.observe(&row("kb_knowledge", id, vec![cell("sys_updated_on", at)]), None);
    }
    assert_eq!(progress.watermark_updated_at, Some(s("2026-01-03 00:00:00")));
    assert_eq!(progress.watermark_sys_id, Some(s("c")));
}

#[test]
fn priorities_that_are_no_text_count() {
    let given = |id: &str, priority: Cell| row("incident", id, vec![priority]);
    let number = Cell { name: s("priority"), raw: None, display: None, other: Some(s("2")) };
    let items = vec![
        queue_item(&given("three", cell("priority", "3")), None, IncidentSlaBucket::Healthy, 0),
        queue_item(&given("two", number), None, IncidentSlaBucket::Healthy, 1),
        queue_item(&row("incident", "none", Vec::new()), None, IncidentSlaBucket::Healthy, 2),
    ];
    assert_eq!(items[1].priority, "2");
    let sorted = sort_incident_queue_items(
        items,
        IncidentQueueSortBy::Priority,
        IncidentQueueSortDirection::Asc,
    );
    let ids: Vec<&str> = sorted.iter().map(|i| i.sys_id.as_str()).collect();
    assert_eq!(ids, vec!["two", "three", "none"]);
}

#[test]
fn layers_are_those_in_which_a_tag_is_used() {
    let tag = |name: &str, n: usize| TagRow { tag: s(name), article_count: n };
    let service = KnowledgeService {
        bases: Vec::new(),
        categories: Vec::new(),
        all_tags: vec![tag("vpn", 2)],
        sn_tags: vec![tag("vpn", 0)],
        auto_tags: vec![tag("vpn", 2)],
        user_tags: Vec::new(),
    };
    let report = service.list_knowledge_tags(None, 1).unwrap();
    assert_eq!(report.len(), 1);
    assert_eq!(report[0].layers.len(), 1);
}

#[test]
fn rows_that_are_no_servers_are_refused() {
    let found = || row("cmdb_ci_server", ID, Vec::new());
    assert!(hydrated(found(), Ok(())).is_ok());
    assert!(matches!(
        hydrated(found(), Err(s("no name"))),
        Err(ServerGetError::Hydration(d)) if d == "no name"
    ));
    assert!(kept_server(found(), None).is_ok());
    assert!(kept_server(found(), Some(Ok(()))).is_ok());
    assert!(matches!(
        kept_server(found(), Some(Err(s("full")))),
        Err(ServerGetError::Other(d)) if d == "full"
    ));
}

#[test]
fn kept_records_are_open_until_they_say_no() {
    let texts = || RecordTexts {
        number: String::new(),
        state: String::new(),
        short_description: String::new(),
        description: String::new(),
    };
    let terminal = vec![s("closed")];
    let record = |state: &str, active: Option<(&str, Option<&str>)>| {
        let given = row("incident", ID, vec![cell("state", state)]);
        let mut record =
            SnowRecord::from_servicenow(&given, texts(), Vec::new(), Vec::new(), 0);
        if let Some((value, display)) = active {
            record.fields.push(NamedField {
                name: s("active"),
                field: FieldValue { value: s(value), display_value: display.map(s) },
            });
        }
        record
    };
    assert!(record_is_open(&record("2", None), &terminal));
    assert!(record_is_open(&record("2", Some(("true", None))), &terminal));
    assert!(!record_is_open(&record(" Closed ", None), &terminal));
    assert!(!record_is_open(&record("2", Some(("false", None))), &terminal));
    assert!(!record_is_open(&record("2", Some(("1", Some(" No ")))), &terminal));
}

#[test]
fn intervals_that_cannot_be_counted_are_told() {
    assert!(is_duration_readable("18446744073709551615s"));
    assert!(!is_duration_readable("18446744073709551615m"));
    assert!(is_duration_readable("307445734561825860m"));
    assert!(!is_duration_readable("307445734561825861m"));
    assert!(is_duration_readable("7d") && is_duration_readable("bad") && is_duration_readable(""));
    assert!(!is_duration_readable("7é"));
}

#[test]
fn records_come_in_the_order_of_their_numbers() {
    let texts = || RecordTexts {
        number: String::new(),
        state: String::new(),
        short_description: String::new(),
        description: String::new(),
    };
    let record = |number: &str, id: &str| {
        let given = row("pm_project", id, vec![cell("number", number)]);
        SnowRecord::from_servicenow(&given, texts(), Vec::new(), Vec::new(), 0)
    };
    let sorted = sort_records_by_number(vec![
        record("PRJ0001001", "a"),
        record("DMND0002002", "b"),
        record("PRJ0001001", "c"),
    ]);
    let ids: Vec<&str> = sorted.iter().map(|r| r.sys_id.as_str()).collect();
    assert_eq!(ids, vec!["b", "a", "c"]);
}

#[test]
fn exact_numbers_are_told_from_free_text() {
    for number in ["INC4992697", "chg0325640", " DMNTSK0001122 "] {
        assert!(is_exact_record_number(number));
    }
    for text in ["multiple ports down", "INC", "123", "INC 1", "INC1a", ""] {
        assert!(!is_exact_record_number(text));
    }
}
