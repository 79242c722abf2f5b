use snow_core::display_field::{ancestry_query, own_display, read_ancestry, Ancestry};
use snow_core::document::{
    content_hash, deliver, deliver_with, replay_document, replay_with, Delivery, DocumentState,
    ResolvedContent, DOCUMENT_BYTES, INLINE_BYTES,
};
use snow_core::name_table::{name_fields, name_query, read_name_page, Column};
use snow_core::query::Operator;
use snow_core::record_error::RecordResolveError;
use snow_core::record_name_resolver::{
    name_selector, open_name_search, park_name, NameSearch, RecordNameMatch, TableOutcome,
};
use snow_core::record_number::{number_selector, NumberAction, NumberLookup};
use snow_core::record_resolver::{
    begin_resolution, check_number_scope, hinted_scope, judge_matches, open_search, park,
    reread_record, route, scoped_record, sort_probes, Probe, RecordResolveInput, ResolveRoute,
    ResolveStart, SearchAction, SearchEnd, SearchState,
};
use snow_core::record_types::{
    after_catalog, after_definition, after_prefix, after_references, begin_type_search,
    definition_query, prefix_tables, table_definition, unique_type, RecordType, TypeStage,
    TypeTables,
};
use snow_core::row::{Cell, Failure, Page, Row};
use snow_core::session::Sessions;

const ID: &str = "0123456789abcdef0123456789abcdef";
const ID2: &str = "1123456789abcdef0123456789abcdef";

fn s(text: &str) -> String {
    text.to_string()
}

fn row(table: &str, sys_id: &str, cells: &[(&str, &str)]) -> Row {
    Row {
        table: s(table),
        sys_id: s(sys_id),
        cells: cells
            .iter()
            .map(|(name, raw)| Cell { name: s(name), raw: Some(s(raw)), display: None, other: None })
            .collect(),
    }
}

fn page(rows: Vec<Row>) -> Result<Page, Failure> {
    Ok(Page { rows, partial: false })
}

fn input() -> RecordResolveInput {
    RecordResolveInput {
        sys_id: None,
        number: None,
        resource_type: None,
        name: None,
        table: None,
        cursor: None,
    }
}

fn record(table: &str) -> Row {
    row(table, ID, &[("sys_id", ID), ("sys_class_name", table)])
}

fn refused<T>(r: Result<T, RecordResolveError>) -> String {
    match r {
        Ok(_) => panic!("was not refused"),
        Err(e) => e.message(),
    }
}

#[test]
fn inputs_have_one_selector() {
    let two = RecordResolveInput { name: Some(s("a")), number: Some(s("b")), ..input() };
    assert_eq!(refused(begin_resolution(&two)), "provide one of name, number, or sys_id");
    assert_eq!(
        refused(begin_resolution(&input())),
        "name, number, sys_id, or resource_type is required"
    );
    let both =
        RecordResolveInput { resource_type: Some(s("a")), table: Some(s("b")), ..input() };
    assert_eq!(
        refused(begin_resolution(&both)),
        "type discovery requires only resource_type or table"
    );
    let types = RecordResolveInput { resource_type: Some(s("incident")), ..input() };
    assert!(matches!(
        begin_resolution(&types),
        Ok(ResolveStart::Types { selector }) if selector == "incident"
    ));
    let hinted = RecordResolveInput { number: Some(s("INC1")), ..types.clone() };
    assert!(matches!(begin_resolution(&hinted), Ok(ResolveStart::Hint { .. })));
    let any = RecordResolveInput { resource_type: Some(s("record")), ..hinted };
    assert!(matches!(begin_resolution(&any), Ok(ResolveStart::Scoped { scope: None })));
}

#[test]
fn selectors_choose_the_search() {
    let number = RecordResolveInput { number: Some(s("INC1")), ..input() };
    assert!(matches!(route(number.clone()), Ok(ResolveRoute::Number { .. })));
    let continued = RecordResolveInput { cursor: Some(s("c")), ..number };
    assert_eq!(
        refused(route(continued)),
        "continue a numbered record document with its returned sys_id and cursor"
    );
    let id = RecordResolveInput { sys_id: Some(ID.to_uppercase()), ..input() };
    assert!(matches!(route(id), Ok(ResolveRoute::SysId { sys_id, .. }) if sys_id == ID));
    let bad = RecordResolveInput { sys_id: Some(s("x")), ..input() };
    assert!(route(bad).is_err());
    let named = RecordResolveInput { name: Some(s("Printer")), ..input() };
    assert!(matches!(route(named), Ok(ResolveRoute::Name { .. })));
}

#[test]
fn hints_and_tables_must_agree() {
    let found = || RecordType {
        table: s("incident"),
        label: s("Incident"),
        resource_type: s("incident"),
        source: s("table_catalog"),
    };
    assert_eq!(hinted_scope(&None, found()).unwrap(), Some(s("incident")));
    assert_eq!(
        refused(hinted_scope(&Some(s("problem")), found())),
        "table does not match resolved resource_type"
    );
    assert!(check_number_scope(&record("incident"), &Some(s("incident"))).is_ok());
    assert!(check_number_scope(&record("incident"), &Some(s("problem"))).is_err());
    assert!(scoped_record(Ok(record("incident")), ID, "incident").is_ok());
    assert!(scoped_record(Ok(record("incident")), ID, "task").is_err());
    assert!(scoped_record(Err(Failure::Http), ID, "incident").is_err());
    assert!(scoped_record(Ok(record("incident")), ID2, "incident").is_err());
}

#[test]
fn searches_ask_the_likely_tables_first_and_then_the_catalog() {
    let mut state = SearchState::fresh(ID);
    let mut asked: Vec<String> = Vec::new();
    match state.action(32) {
        SearchAction::Probe { count } => {
            assert_eq!(count, 8);
            let (tables, next) = state.take(count);
            asked.extend(tables);
            state = next;
        }
        _ => panic!("tables wait to be asked"),
    }
    assert_eq!(asked.len(), 8);
    assert_eq!(state.scanned, 8);
    match state.action(24) {
        SearchAction::Catalog(q) => assert_eq!(q.table, "sys_db_object"),
        _ => panic!("the catalog is next"),
    }
    let entry = |name: &str| row("sys_db_object", ID, &[("sys_id", ID), ("name", name)]);
    let (state, left) = state
        .after_catalog(page(vec![entry("aaa_table"), entry(asked[0].as_str())]), 24)
        .unwrap();
    assert_eq!(left, 24);
    assert_eq!(state.pending, vec![s("aaa_table")]);
    assert!(state.catalog_complete);
    let (_, state) = state.take(1);
    assert!(matches!(state.action(23), SearchAction::Stop));
}

#[test]
fn catalog_faults_end_a_search() {
    assert_eq!(
        refused(SearchState::fresh(ID).after_catalog(Err(Failure::TimedOut), 5)),
        "table catalog discovery timed out; retry this lookup"
    );
    assert_eq!(
        refused(SearchState::fresh(ID).after_catalog(Err(Failure::Http), 5)),
        "table catalog is unavailable to the configured identity; resolution cannot complete"
    );
    let half = Ok(Page { rows: Vec::new(), partial: true });
    assert_eq!(
        refused(SearchState::fresh(ID).after_catalog(half, 5)),
        "table catalog returned a partial page"
    );
}

#[test]
fn answers_of_tables_are_sorted() {
    let (rows, unreadable) = sort_probes(
        vec![Probe::Missing, Probe::Unreadable, Probe::Found(record("incident"))],
        2,
    )
    .unwrap();
    assert_eq!(rows.len(), 1);
    assert_eq!(unreadable, 3);
    assert_eq!(
        refused(sort_probes(vec![Probe::Lost], 0)),
        "record discovery worker failed"
    );
}

#[test]
fn matches_must_be_one_record() {
    let verdict = judge_matches(vec![record("incident")], ID).unwrap();
    assert_eq!(verdict.class, "incident");
    assert!(judge_matches(vec![record("incident"), record("problem")], ID).is_err());
    assert!(reread_record(Ok(record("incident")), ID, "incident").is_ok());
    assert!(reread_record(Ok(record("incident")), ID, "problem").is_err());
}

#[test]
fn parked_searches_go_on_under_their_cursor() {
    let mut sessions: Sessions<SearchState> = Sessions::new();
    let state = open_search(&mut sessions, &None, ID, 10).unwrap();
    let (_, state) = state.take(8);
    let cursor = match park(&mut sessions, None, state, 10).unwrap() {
        SearchEnd::Searching { cursor, scanned_tables, .. } => {
            assert_eq!(scanned_tables, 8);
            cursor
        }
        _ => panic!("the catalog is still unread"),
    };
    assert_eq!(cursor.len(), 36);
    assert!(open_search(&mut sessions, &Some(cursor.clone()), ID2, 11).is_err());
    let again = open_search(&mut sessions, &Some(cursor), ID, 11).unwrap();
    assert_eq!(again.scanned, 8);
    assert!(open_search(&mut sessions, &Some(s("unknown")), ID, 11).is_err());
    let mut done = SearchState::fresh(ID);
    done.pending = Vec::new();
    done.catalog_complete = true;
    assert!(matches!(
        park(&mut sessions, None, done, 12),
        Ok(SearchEnd::NotFound { scanned_tables: 0, unreadable_tables: 0 })
    ));
}

#[test]
fn prefixes_are_read_from_the_metadata() {
    let prefix = |p: &str, t: &str| row("sys_number", ID, &[("prefix", p), ("category", t)]);
    let found =
        prefix_tables("INC", &page(vec![prefix("INC", "incident")]), &Some(s("other"))).unwrap();
    assert_eq!(found.tables, vec![s("incident")]);
    assert_eq!(found.source, "number_metadata");
    let none = prefix_tables("INC", &page(Vec::new()), &Some(s("incident"))).unwrap();
    assert_eq!(none.source, "core_prefix_fallback");
    let hidden = prefix_tables("INC", &Err(Failure::Api(403)), &Some(s("incident"))).unwrap();
    assert_eq!(hidden.tables, vec![s("incident")]);
    assert_eq!(
        refused(prefix_tables("INC", &Err(Failure::Api(403)), &None)),
        "number-prefix metadata is unreadable and the core has no configured prefix mapping"
    );
    assert_eq!(
        refused(prefix_tables("INC", &Err(Failure::Http), &None)),
        "number-prefix metadata is unavailable"
    );
    assert_eq!(
        refused(prefix_tables("INC", &page(vec![prefix("PRB", "problem")]), &None)),
        "number-prefix metadata did not match"
    );
}

#[test]
fn numbers_are_looked_up_in_their_actual_class() {
    let sel = number_selector(" inc0000001 ", &None).unwrap();
    assert_eq!(sel.number, "INC0000001");
    assert_eq!(sel.prefix, "INC");
    assert!(number_selector("0000001", &None).is_err());
    assert!(number_selector("INC^1", &None).is_err());
    let tables = TypeTables { tables: vec![s("task")], source: s("number_metadata") };
    let lookup = NumberLookup::start(sel.number, Ok(tables)).unwrap();
    match lookup.action() {
        NumberAction::Ask(q) => {
            assert_eq!(q.table, "task");
            assert_eq!(q.limit, Some(2));
            assert_eq!(q.conditions[0].operator, Operator::Equals);
        }
        _ => panic!("the table is asked"),
    }
    let found = |table: &str| {
        row(
            table,
            ID,
            &[("sys_id", ID), ("number", "INC0000001"), ("sys_class_name", "incident")],
        )
    };
    let lookup = lookup.after_page(page(vec![found("task")])).unwrap();
    match lookup.action() {
        NumberAction::ReadClass { table, sys_id } => {
            assert_eq!(table, "incident");
            assert_eq!(sys_id, ID);
        }
        _ => panic!("the actual class is read"),
    }
    let lookup = lookup.after_class(Ok(found("incident"))).unwrap();
    assert!(matches!(lookup.action(), NumberAction::Finish));
    assert_eq!(lookup.finish().unwrap().unwrap().table, "incident");
}

#[test]
fn ambiguous_numbers_are_refused() {
    let tables = || TypeTables { tables: vec![s("incident")], source: s("number_metadata") };
    let start = || NumberLookup::start(s("INC0000001"), Ok(tables())).unwrap();
    let hit = |id: &str| {
        row(
            "incident",
            id,
            &[("sys_id", id), ("number", "INC0000001"), ("sys_class_name", "incident")],
        )
    };
    assert_eq!(
        refused(start().after_page(page(vec![hit(ID), hit(ID2)]))),
        "record number is ambiguous or provider returned a partial page"
    );
    assert_eq!(
        refused(start().after_page(Err(Failure::Http))),
        "number lookup table is unreadable"
    );
    let other = row("incident", ID, &[("sys_id", ID), ("number", "INC0000002")]);
    assert_eq!(
        refused(start().after_page(page(vec![other]))),
        "number lookup returned an unrelated record"
    );
    assert!(start().after_page(page(Vec::new())).unwrap().finish().unwrap().is_none());
}

#[test]
fn types_are_discovered_stage_by_stage() {
    let (sel, stage) = begin_type_search("INC").unwrap();
    assert!(matches!(&stage, TypeStage::Prefix { prefix, last: false } if prefix == "INC"));
    assert!(begin_type_search("a^b").is_err());
    let stage = after_prefix(false, Ok(TypeTables { tables: Vec::new(), source: s("x") })).unwrap();
    assert!(matches!(stage, TypeStage::Catalog));
    let table = |name: &str| row("sys_db_object", ID, &[("name", name), ("label", "Incident")]);
    let stage = after_catalog(&sel, &page(Vec::new())).unwrap();
    assert!(matches!(stage, TypeStage::References));
    assert!(after_references(&sel, &page(Vec::new())).is_ok());
    assert!(definition_query("incident").is_ok());
    assert!(definition_query("not a table").is_err());
    let defined = table_definition("incident", "table_catalog", &page(vec![table("incident")]));
    assert_eq!(defined.unwrap().label, "Incident");
    assert_eq!(
        refused(table_definition("incident", "x", &page(vec![table("problem")]))),
        "table definition is missing, ambiguous, or did not match"
    );
    let tables = TypeTables { tables: vec![s("incident")], source: s("number_metadata") };
    match after_definition(tables, Vec::new(), &page(vec![table("incident")])).unwrap() {
        TypeStage::Done { types } => {
            assert_eq!(types.len(), 1);
            assert_eq!(unique_type(types).unwrap().table, "incident");
        }
        _ => panic!("one table, one definition"),
    }
    assert!(unique_type(Vec::new()).is_err());
}

#[test]
fn names_match_in_any_case_of_any_script() {
    assert!(name_selector("", &None).is_err());
    assert!(name_selector("x", &Some(s("not a table"))).is_err());
    let fields = vec![s("name")];
    let hit = row(
        "cmdb_ci",
        ID,
        &[("sys_id", ID), ("name", "ÄPFEL"), ("sys_class_name", "cmdb_ci_server")],
    );
    let found = read_name_page(&page(vec![hit.copy()]), "cmdb_ci", "äpfel", &fields, &None).unwrap();
    assert_eq!(found.matches.len(), 1);
    assert_eq!(found.matches[0].table, "cmdb_ci_server");
    assert_eq!(found.matches[0].matched_fields, fields);
    assert!(found.next.is_none());
    assert_eq!(
        refused(read_name_page(&page(vec![hit.copy()]), "cmdb_ci", "birnen", &fields, &None)),
        "provider returned a record that does not match the exact name"
    );
    assert_eq!(
        refused(read_name_page(
            &page(vec![hit.copy()]),
            "cmdb_ci",
            "äpfel",
            &fields,
            &Some(s(ID2))
        )),
        "name query returned a non-progressing page"
    );
    assert_eq!(
        refused(read_name_page(&Err(Failure::Http), "cmdb_ci", "äpfel", &fields, &None)),
        "name query is unreadable"
    );
    let q = name_query("cmdb_ci", &fields, true, "äpfel", &Some(s(ID)));
    assert_eq!(q.limit, Some(20));
    assert!(q.fields.contains(&s("number")));
}

#[test]
fn display_fields_are_inherited() {
    let columns = vec![
        Column { name: s("name"), display: false },
        Column { name: s("u_title"), display: true },
    ];
    let fields = name_fields(&columns, &Some(s("u_title"))).unwrap();
    assert!(fields.contains(&s("u_title")));
    assert_eq!(
        refused(name_fields(&columns, &Some(s("gone")))),
        "display field is absent from the live table model"
    );
    assert!(own_display(&Err(Failure::Http)).is_some());
    assert_eq!(ancestry_query("cmdb_ci").limit.is_some(), true);
    assert!(matches!(read_ancestry("cmdb_ci", &Err(Failure::Http)), Ancestry::Known(_)));
}

fn candidate(id: &str) -> RecordNameMatch {
    RecordNameMatch {
        sys_id: s(id),
        table: s("incident"),
        resource_type: s("incident"),
        name: s("x"),
        number: None,
        matched_fields: vec![s("name")],
    }
}

#[test]
fn candidates_are_given_once() {
    let mut state = NameSearch::fresh("x", &Some(s("incident")));
    assert_eq!(state.current(), Some((s("incident"), None)));
    let (next, fresh) = state
        .after_table(TableOutcome::Found {
            matches: vec![candidate(ID)],
            next: Some(s(ID)),
            metadata_complete: true,
        })
        .unwrap();
    assert_eq!(fresh.len(), 1);
    state = next;
    assert_eq!(state.current(), Some((s("incident"), Some(s(ID)))));
    let (next, fresh) = state
        .after_table(TableOutcome::Found {
            matches: vec![candidate(ID), candidate(ID2)],
            next: None,
            metadata_complete: true,
        })
        .unwrap();
    assert_eq!(fresh.len(), 1);
    assert_eq!(fresh[0].sys_id, ID2);
    assert!(next.current().is_none());
    let timed = NameSearch::fresh("x", &Some(s("incident"))).after_table(TableOutcome::TimedOut);
    assert_eq!(
        refused(timed),
        "name lookup timed out while discovering metadata or querying records"
    );
}

#[test]
fn name_cursors_belong_to_their_name() {
    let mut sessions: Sessions<NameSearch> = Sessions::new();
    let state = open_name_search(&mut sessions, &None, "x", &None, 5).unwrap();
    let parked = park_name(&mut sessions, state, Vec::new(), 5).unwrap();
    assert!(!parked.complete);
    let cursor = parked.cursor;
    assert!(cursor.is_some());
    assert!(open_name_search(&mut sessions, &cursor, "y", &None, 6).is_err());
    assert!(open_name_search(&mut sessions, &cursor, "x", &None, 6).is_ok());
    assert!(open_name_search(&mut sessions, &cursor, "x", &None, 6).is_ok());
}

#[test]
fn documents_are_known_by_their_digest() {
    assert_eq!(
        content_hash("abc"),
        "sha256:ba7816bf8f01cfea414140de5dae2223b00361a396177a9cb410ff61f20015ad"
    );
    assert_eq!(
        content_hash(""),
        "sha256:e3b0c44298fc1c149afbf4c8996fb92427ae41e4649b934ca495991b7852b855"
    );
}

fn content(text: String) -> ResolvedContent {
    ResolvedContent {
        sys_id: s(ID),
        table: s("incident"),
        resource_type: s("incident"),
        content: text,
    }
}

#[test]
fn long_documents_come_in_pages_that_make_the_whole() {
    let mut store: Sessions<DocumentState> = Sessions::new();
    let text = "aé".repeat(INLINE_BYTES / 2);
    let short = deliver(&mut store, content("x".repeat(INLINE_BYTES)), None, 1).unwrap();
    assert!(matches!(short, Delivery::Inline(_)));
    let first = match deliver(&mut store, content(text.clone()), Some(s("found")), 1).unwrap() {
        Delivery::Paged(page) => page,
        _ => panic!("a long document"),
    };
    assert_eq!(first.offset_bytes, 0);
    assert_eq!(first.byte_length, text.len());
    assert!(first.content.len() <= 8192);
    assert_eq!(first.content_hash, content_hash(&text));
    let mut whole = first.content.clone();
    let mut cursor = first.cursor.clone();
    let mut now = 2;
    while let Some(c) = cursor {
        let page = replay_document(&mut store, &c, ID, now).unwrap().unwrap();
        assert_eq!(page.offset_bytes, whole.len());
        let twice = replay_document(&mut store, &c, ID, now).unwrap().unwrap();
        assert_eq!(twice.content, page.content);
        assert_eq!(twice.cursor, page.cursor);
        whole.push_str(&page.content);
        cursor = page.cursor;
        now += 1;
    }
    assert_eq!(whole, text);
    let again = replay_document(&mut store, "found", ID, now).unwrap().unwrap();
    assert_eq!(again.content, first.content);
    assert!(replay_document(&mut store, "found", ID2, now).unwrap().is_err());
    assert!(replay_document(&mut store, "unknown", ID, now).is_none());
}

#[test]
fn documents_have_a_limit() {
    let mut store: Sessions<DocumentState> = Sessions::new();
    assert_eq!(
        refused(deliver(&mut store, content("x".repeat(DOCUMENT_BYTES + 1)), None, 1)),
        "resolved document exceeds the 16 MiB session limit; no data was truncated"
    );
    let text = || content("x".repeat(INLINE_BYTES + 1));
    for i in 0..32 {
        let token = format!("t{}", i);
        let page_token = format!("p{}", i);
        assert!(deliver_with(&mut store, text(), None, 1, token, page_token).is_ok());
    }
    assert_eq!(
        refused(deliver(&mut store, text(), None, 1)),
        "resolved document sessions are at capacity"
    );
    assert!(replay_with(&mut store, "p0", ID, 1, s("fresh")).unwrap().is_ok());
}
