use snow_core::document::{ResolvedContent, INLINE_BYTES};
use snow_core::live_model::{data_model_status, read_model, ColumnMark, MarkedColumn, ModelReply};
use snow_core::name_table::Column;
use snow_core::query::{Operator, Query};
use snow_core::record_error::RecordResolveError;
use snow_core::record_resolver::{Probe, RecordResolveInput};
use snow_core::resolution::{RecordResolution, Resolution, ResolveRequest, Resolver};
use snow_core::row::{Cell, Failure, Page, Row};
use snow_core::table_search::ModelFailure;
use snow_core::user::{
    user_record_from_record, UserLookup, UserRecord,
};
use snow_core::user_call::{keeps_answer, UserCall, UserRequest};

const ID: &str = "0123456789abcdef0123456789abcdef";
const ID2: &str = "1123456789abcdef0123456789abcdef";

fn s(text: &str) -> String {
    text.to_string()
}

fn row(table: &str, sys_id: &str, cells: &[(&str, &str)]) -> Row {
    Row {
        table: s(table),
        sys_id: s(sys_id),
        cells: cells
            .iter()
            .map(|(name, raw)| Cell { name: s(name), raw: Some(s(raw)), display: None, other: None })
            .collect(),
    }
}

fn input() -> RecordResolveInput {
    RecordResolveInput {
        sys_id: None,
        number: None,
        resource_type: None,
        name: None,
        table: None,
        cursor: None,
    }
}

/// A provider that holds its rows in memory.
struct Provider {
    rows: Vec<Row>,
    /// Tables that cannot be read.
    hidden: Vec<String>,
    content: String,
    asked: Vec<String>,
}

impl Provider {
    fn new(rows: Vec<Row>) -> Provider {
        Provider { rows, hidden: Vec::new(), content: s("{}"), asked: Vec::new() }
    }

    fn holds(row: &Row, q: &Query) -> bool {
        let mut ok = true;
        let mut group = true;
        for (i, c) in q.conditions.iter().enumerate() {
            let value = if c.field == "sys_id" {
                Some(row.sys_id.as_str())
            } else {
                row.get_raw(&c.field)
            };
            let hit = match (c.operator, value) {
                (Operator::Equals, Some(v)) => v.eq_ignore_ascii_case(&c.value),
                (Operator::GreaterThan, Some(v)) => v > c.value.as_str(),
                (Operator::In, Some(v)) => c.value.split(',').any(|x| x == v),
                _ => false,
            };
            if c.alternative {
                group = group || hit;
            } else {
                if i > 0 {
                    ok = ok && group;
                }
                group = hit;
            }
        }
        ok && group
    }

    fn page(&mut self, q: &Query) -> Result<Page, Failure> {
        self.asked.push(q.table.clone());
        if self.hidden.contains(&q.table) {
            return Err(Failure::Api(403));
        }
        let mut rows: Vec<Row> = self
            .rows
            .iter()
            .filter(|r| r.table == q.table && Provider::holds(r, q))
            .map(|r| r.copy())
            .collect();
        if let Some(key) = q.order.first() {
            let field = key.field.clone();
            rows.sort_by(|a, b| {
                let left = if field == "sys_id" { Some(a.sys_id.as_str()) } else { a.get_raw(&field) };
                let right = if field == "sys_id" { Some(b.sys_id.as_str()) } else { b.get_raw(&field) };
                left.cmp(&right)
            });
        }
        if let Some(limit) = q.limit {
            rows.truncate(limit as usize);
        }
        Ok(Page { rows, partial: false })
    }

    fn read(&mut self, table: &str, sys_id: &str) -> Result<Row, Failure> {
        self.asked.push(s(table));
        if self.hidden.contains(&s(table)) {
            return Err(Failure::Api(403));
        }
        self.rows
            .iter()
            .find(|r| r.table == table && r.sys_id == sys_id)
            .map(|r| r.copy())
            .ok_or(Failure::Api(404))
    }
}

/// Runs a lookup to its end.
fn resolve(
    resolver: &mut Resolver,
    provider: &mut Provider,
    input: RecordResolveInput,
    now: u64,
) -> Result<RecordResolution, RecordResolveError> {
    let mut stage = resolver.start(input, now)?;
    loop {
        stage = match stage.request()? {
            ResolveRequest::Prefix { query, .. } => {
                stage.take_page(provider.page(&query), &None)?
            }
            ResolveRequest::Ask(query) => stage.take_page(provider.page(&query), &None)?,
            ResolveRequest::Model { table } => {
                let model = if provider.hidden.contains(&table) {
                    Err(ModelFailure::Unreadable)
                } else {
                    Ok(vec![
                        Column { name: s("name"), display: true },
                        Column { name: s("number"), display: false },
                    ])
                };
                stage.take_model(model)?
            }
            ResolveRequest::Read { table, sys_id, .. } => {
                stage.take_row(provider.read(&table, &sys_id))?
            }
            ResolveRequest::Probe { tables, sys_id } => {
                let probes = tables
                    .iter()
                    .map(|t| match provider.read(t, &sys_id) {
                        Ok(row) => Probe::Found(row),
                        Err(Failure::Api(404)) => Probe::Missing,
                        Err(_) => Probe::Unreadable,
                    })
                    .collect();
                stage.take_probes(probes)?
            }
            ResolveRequest::Describe { .. } => match stage {
                Resolution::Describe(found) => {
                    return resolver.take_content(found, provider.content.clone(), now)
                }
                _ => unreachable!(),
            },
            ResolveRequest::Settle => resolver.settle(stage, now)?,
            ResolveRequest::Done => match stage {
                Resolution::Done(answer) => return Ok(answer),
                _ => unreachable!(),
            },
        };
    }
}

fn table(name: &str, label: &str) -> Row {
    row("sys_db_object", &format!("{}-sys", name), &[
        ("name", name),
        ("label", label),
        ("super_class", ""),
    ])
}

fn incident(table: &str) -> Row {
    row(
        table,
        ID,
        &[("sys_id", ID), ("number", "INC0000001"), ("sys_class_name", "incident"), ("name", "Printer")],
    )
}

fn world() -> Provider {
    Provider::new(vec![
        incident("task"),
        incident("incident"),
        table("incident", "Incident"),
        table("problem", "Problem"),
        row("sys_number", "n1", &[("prefix", "INC"), ("category", "incident")]),
    ])
}

#[test]
fn records_are_found_by_id_and_read_in_their_class() {
    let mut provider = world();
    let mut resolver = Resolver::new();
    let by_id = RecordResolveInput { sys_id: Some(s(ID)), ..input() };
    match resolve(&mut resolver, &mut provider, by_id, 1) {
        Ok(RecordResolution::Resolved { record: ResolvedContent { sys_id, table, .. } }) => {
            assert_eq!(sys_id, ID);
            assert_eq!(table, "incident");
        }
        _ => panic!("the record is there"),
    }
    assert_eq!(provider.asked.last().map(|t| t.as_str()), Some("incident"));
}

#[test]
fn unknown_ids_are_looked_for_in_every_table() {
    let mut provider = world();
    provider.hidden.push(s("cmdb_ci"));
    let mut resolver = Resolver::new();
    let by_id = RecordResolveInput { sys_id: Some(s(ID2)), ..input() };
    match resolve(&mut resolver, &mut provider, by_id, 1) {
        Ok(RecordResolution::NotFoundOrInaccessible { sys_id, scanned_tables, unreadable_tables }) => {
            assert_eq!(sys_id, ID2);
            assert_eq!(scanned_tables, 10);
            assert_eq!(unreadable_tables, 1);
        }
        _ => panic!("no such record"),
    }
}

#[test]
fn long_searches_go_on_in_the_next_call() {
    let mut provider = world();
    for i in 0..60 {
        provider.rows.push(table(&format!("t{:02}", i), "T"));
    }
    provider.rows.push(row("t59", ID2, &[("sys_id", ID2)]));
    let mut resolver = Resolver::new();
    let mut call = RecordResolveInput { sys_id: Some(s(ID2)), ..input() };
    let mut calls = 0;
    loop {
        calls += 1;
        let before = provider.asked.iter().filter(|t| *t != "sys_db_object").count();
        match resolve(&mut resolver, &mut provider, call.clone(), calls) {
            Ok(RecordResolution::Searching { cursor, .. }) => {
                let after = provider.asked.iter().filter(|t| *t != "sys_db_object").count();
                assert!(after - before <= 32);
                call.cursor = Some(cursor);
            }
            Ok(RecordResolution::Resolved { record }) => {
                assert_eq!(record.table, "t59");
                break;
            }
            _ => panic!("the record is in the last table"),
        }
    }
    assert_eq!(calls, 3);
    assert!(resolver.searches.entries.is_empty());
}

#[test]
fn records_are_found_by_number() {
    let mut provider = world();
    let mut resolver = Resolver::new();
    let by_number = RecordResolveInput { number: Some(s("inc0000001")), ..input() };
    match resolve(&mut resolver, &mut provider, by_number, 1) {
        Ok(RecordResolution::Resolved { record }) => assert_eq!(record.table, "incident"),
        _ => panic!("the number is known"),
    }
    let unknown = RecordResolveInput { number: Some(s("INC0000002")), ..input() };
    match resolve(&mut resolver, &mut provider, unknown, 1) {
        Ok(RecordResolution::NumberNotFoundOrInaccessible { number }) => {
            assert_eq!(number, "INC0000002")
        }
        _ => panic!("no such number"),
    }
    let scoped = RecordResolveInput {
        number: Some(s("INC0000001")),
        table: Some(s("task")),
        ..input()
    };
    assert!(resolve(&mut resolver, &mut provider, scoped, 1).is_err());
}

#[test]
fn types_are_found_by_label_and_prefix() {
    let mut provider = world();
    let mut resolver = Resolver::new();
    for selector in ["incident", "Problem", "INC"] {
        let call = RecordResolveInput { resource_type: Some(s(selector)), ..input() };
        match resolve(&mut resolver, &mut provider, call, 1) {
            Ok(RecordResolution::TypeMatches { types, complete }) => {
                assert!(complete);
                assert_eq!(types.len(), 1, "{}", selector);
            }
            _ => panic!("one type"),
        }
    }
    let hinted = RecordResolveInput {
        sys_id: Some(s(ID)),
        resource_type: Some(s("incident")),
        ..input()
    };
    match resolve(&mut resolver, &mut provider, hinted, 1) {
        Ok(RecordResolution::Resolved { record }) => assert_eq!(record.resource_type, "incident"),
        _ => panic!("the record is of the type"),
    }
    let wrong = RecordResolveInput {
        sys_id: Some(s(ID)),
        resource_type: Some(s("problem")),
        ..input()
    };
    assert!(resolve(&mut resolver, &mut provider, wrong, 1).is_err());
}

#[test]
fn records_are_found_by_name() {
    let mut provider = world();
    let mut resolver = Resolver::new();
    let mut call = RecordResolveInput { name: Some(s("printer")), ..input() };
    let mut found = 0;
    for now in 0..40 {
        match resolve(&mut resolver, &mut provider, call.clone(), now) {
            Ok(RecordResolution::NameMatches(m)) => {
                found += m.records.len();
                match m.cursor {
                    Some(c) => call.cursor = Some(c),
                    None => break,
                }
            }
            _ => panic!("a page of matches"),
        }
    }
    assert_eq!(found, 1);
    let scoped = RecordResolveInput {
        name: Some(s("Printer")),
        table: Some(s("incident")),
        ..input()
    };
    match resolve(&mut resolver, &mut provider, scoped, 50) {
        Ok(RecordResolution::NameMatches(m)) => {
            assert!(m.complete);
            assert_eq!(m.records.len(), 1);
            assert_eq!(m.records[0].sys_id, ID);
            assert_eq!(m.records[0].number.as_deref(), Some("INC0000001"));
        }
        _ => panic!("one match"),
    }
}

#[test]
fn unreadable_tables_are_counted_unless_asked_for() {
    let mut provider = world();
    provider.hidden.push(s("rm_sprint"));
    provider.hidden.push(s("rm_release_scrum"));
    let mut resolver = Resolver::new();
    let any = RecordResolveInput { name: Some(s("nothing")), ..input() };
    match resolve(&mut resolver, &mut provider, any, 1) {
        Ok(RecordResolution::NameMatches(m)) => {
            assert_eq!(m.scanned_tables, 2);
            assert_eq!(m.unreadable_tables, 2);
            assert!(!m.complete);
        }
        _ => panic!("two tables could not be read"),
    }
    let one = RecordResolveInput {
        name: Some(s("nothing")),
        table: Some(s("rm_sprint")),
        ..input()
    };
    match resolve(&mut resolver, &mut provider, one, 1) {
        Err(e) => assert_eq!(e.message(), "live table model is unreadable"),
        Ok(_) => panic!("the table cannot be read"),
    }
}

#[test]
fn long_records_are_read_page_by_page() {
    let mut provider = world();
    provider.content = "x".repeat(INLINE_BYTES + 1);
    let mut resolver = Resolver::new();
    let mut call = RecordResolveInput { sys_id: Some(s(ID)), ..input() };
    let mut whole = String::new();
    loop {
        match resolve(&mut resolver, &mut provider, call.clone(), 1) {
            Ok(RecordResolution::Document(page)) => {
                whole.push_str(&page.content);
                match page.cursor {
                    Some(c) => call.cursor = Some(c),
                    None => break,
                }
            }
            _ => panic!("a page of the record"),
        }
    }
    assert_eq!(whole, provider.content);
}

#[test]
fn refused_inputs_ask_nothing() {
    let mut provider = world();
    let mut resolver = Resolver::new();
    let bad = RecordResolveInput { sys_id: Some(s("x")), ..input() };
    assert!(resolve(&mut resolver, &mut provider, bad, 1).is_err());
    let two = RecordResolveInput { sys_id: Some(s(ID)), name: Some(s("x")), ..input() };
    assert!(resolve(&mut resolver, &mut provider, two, 1).is_err());
    assert!(provider.asked.is_empty());
}

fn user(name: &str) -> UserRecord {
    user_record_from_record(&row("sys_user", ID, &[("name", name)]))
}

#[test]
fn users_are_looked_for_in_the_cache_first() {
    let lookup = UserLookup {
        query: Some(s("casey")),
        user_name: None,
        email: None,
        employee_number: None,
        sys_id: None,
        active: None,
    };
    let call = UserCall::start(&lookup).unwrap();
    let key = match call.request() {
        UserRequest::Cached { key } => key,
        _ => panic!("the cache is asked first"),
    };
    assert_eq!(key, "lookup|active=true|user_name=casey");
    let call = call.take_cached(Some(Vec::new())).unwrap();
    let call = call.take_cached(None).unwrap();
    match call.request() {
        UserRequest::Live { query, key } => {
            assert_eq!(query.table, "sys_user");
            assert_eq!(key, "lookup|active=true|email=casey");
        }
        _ => panic!("the cache had no answer"),
    }
    let call = call.take_live(vec![user("Casey")]).unwrap();
    assert!(matches!(call.request(), UserRequest::Done));
    assert_eq!(call.found.map(|f| f.matched_by).as_deref(), Some("email"));
    assert!(keeps_answer(1));
    assert!(!keeps_answer(2));
}

#[test]
fn several_users_end_a_lookup() {
    let lookup = UserLookup {
        query: None,
        user_name: Some(s("casey")),
        email: None,
        employee_number: None,
        sys_id: None,
        active: Some(false),
    };
    let two = || vec![user("a"), user("b")];
    let cached = UserCall::start(&lookup).unwrap().take_cached(Some(two()));
    assert_eq!(
        cached.err().as_deref(),
        Some("multiple cached sys_user records matched user_name=casey")
    );
    let live = UserCall::start(&lookup).unwrap().take_cached(None).unwrap().take_live(two());
    assert_eq!(
        live.err().as_deref(),
        Some("multiple sys_user records matched user_name=casey")
    );
    let nobody = UserCall::start(&lookup).unwrap().take_cached(None).unwrap();
    let nobody = nobody.take_live(Vec::new()).unwrap();
    assert!(nobody.found.is_none());
    assert!(matches!(nobody.request(), UserRequest::Done));
}

#[test]
fn columns_are_marked_by_a_truth_value_or_its_text() {
    let column = |name: &str, display: Option<ColumnMark>| MarkedColumn { name: s(name), display };
    let columns = read_model(ModelReply::Columns(vec![
        column("name", Some(ColumnMark::Truth(true))),
        column("title", Some(ColumnMark::Text(s("true")))),
        column("code", Some(ColumnMark::Truth(false))),
        column("note", Some(ColumnMark::Text(s("True")))),
        column("size", Some(ColumnMark::Other)),
        column("plain", None),
    ]))
    .ok()
    .unwrap();
    let marked: Vec<&str> =
        columns.iter().filter(|c| c.display).map(|c| c.name.as_str()).collect();
    assert_eq!(marked, vec!["name", "title"]);
    assert_eq!(columns.len(), 6);
    assert_eq!(read_model(ModelReply::NoClient).err(), Some(ModelFailure::NoClient));
    assert_eq!(read_model(ModelReply::Failed).err(), Some(ModelFailure::Unreadable));
    assert_eq!(read_model(ModelReply::Shapeless).err(), Some(ModelFailure::NoColumns));
}

#[test]
fn records_say_where_their_columns_come_from() {
    let there = data_model_status("incident", true, true);
    assert_eq!(there.status, "available");
    assert_eq!(there.table, "incident");
    assert_eq!(there.source.as_deref(), Some("live_ui_metadata"));
    assert_eq!(there.reason, None);
    let unreadable = data_model_status("incident", true, false);
    assert_eq!(unreadable.status, "unavailable");
    assert_eq!(unreadable.source, None);
    assert_eq!(unreadable.reason.as_deref(), Some("live_metadata_unreadable"));
    let nobody = data_model_status("incident", false, false);
    assert_eq!(nobody.status, "unavailable");
    assert_eq!(nobody.reason.as_deref(), Some("metadata_client_not_configured"));
}
