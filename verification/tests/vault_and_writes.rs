use chrono::Datelike;
use snow_core::catalog_items::{
    catalog_search_query, catalog_variable_set_ids, catalog_variables, choice_query, clamp_limit,
    keeps_live_items, plan_catalog_read, plan_variables, CatalogRead,
};
use snow_core::catalog_request::{
    catalog_submit_result_from_response, next_lookup, order_path, reread_target, wanted_request,
    with_request_item, with_reread, CatalogReply, CatalogReplyItem, ItemLookup, LookupStep,
};
use snow_core::choices::FieldChoice;
use snow_core::knowledge_service::CacheMode;
use snow_core::knowledge_sync::Moment;
use snow_core::record_service::{
    cache_object_resource_type, child_relation_for_parent_table, drops_target, plan_children,
    plan_choice_sources, plan_record_read, plan_search, segment_records, wants_more_choices,
    CachedTarget, ChildRelation, ChoiceSource, RecordRead, RecordService, SearchPlan,
};
use snow_core::row::{Cell, Row};
use snow_core::tables::ResourceType;
use snow_core::timecard::{
    card_id, cards_of_user, check_updated_card, ensure_timecard_write_allowed, find_sheet,
    find_week, read_sheet, sheet_query, week_cards_query, TimeCard, WeekSelector,
};
use snow_core::types::RecordRef;
use snow_core::vault::{
    finish_rebuild, prune_report, rebuild_name, rebuild_name_with, repair_candidates,
    repair_report, repaired_row, tag_rows, upsert_row, verify_vault, CheckedRow,
    EnrichmentCandidate, ProjectionCounts, RebuildEnd, RecordRow, ScannedDocument, VaultEntry,
    VaultService,
};
use snow_core::write_result::{
    check_refetch, incident_write_error, missing_write_client, refetch_id,
    write_result_from_fresh_row, FreshRow, IncidentReply, IncidentWrite, IncidentWriteError,
    IncidentWriteStage,
};

const ID: &str = "0123456789abcdef0123456789abcdef";

fn s(text: &str) -> String {
    text.to_string()
}

fn at(seconds: i64) -> Moment {
    Moment { seconds, nanos: 0 }
}

fn cells(list: &[(&str, &str)]) -> Vec<Cell> {
    list.iter()
        .map(|(name, raw)| Cell { name: s(name), raw: Some(s(raw)), display: None, other: None })
        .collect()
}

fn entry(sys_id: &str, path: &str) -> VaultEntry {
    VaultEntry {
        sys_id: s(sys_id),
        number: s("INC1"),
        short_description: s("short"),
        description: s("long"),
        assigned_to: None,
        parent_sys_id: None,
        raw_json: s("{}"),
        relative_path: s(path),
    }
}

fn record_row(sys_id: &str, path: Option<&str>) -> RecordRow {
    RecordRow {
        sys_id: s(sys_id),
        number: s("INC1"),
        short_desc: None,
        description: None,
        assigned_to: None,
        parent_id: None,
        file_path: path.map(s),
        raw_json: s("{}"),
    }
}

#[test]
fn rebuilt_stores_are_made_of_the_documents() {
    let mut vault = VaultService {
        documents: vec![entry("a", "a.md"), entry("b", "b.md"), entry("a", "a2.md")],
        rows: vec![record_row("old", None)],
    };
    let report = vault.rebuild_cache();
    assert_eq!(report.scanned_documents, 3);
    assert_eq!(report.rebuilt_records, 3);
    assert_eq!(vault.rows.len(), 3);
    assert!(vault.rows.iter().any(|r| r.sys_id == "old" && r.file_path.is_none()));
    let a = vault.rows.iter().find(|r| r.sys_id == "a").unwrap();
    assert_eq!(a.file_path.as_deref(), Some("a2.md"));
    assert_eq!(vault.rebuild_cache_from_vault(), 3);
}

#[test]
fn rows_are_kept_once_per_record() {
    let mut rows = vec![record_row("a", None)];
    upsert_row(&mut rows, record_row("a", Some("x.md")));
    upsert_row(&mut rows, record_row("b", None));
    assert_eq!(rows.len(), 2);
    assert_eq!(rows[0].file_path.as_deref(), Some("x.md"));
}

#[test]
fn faulty_rebuilds_are_discarded() {
    assert!(matches!(finish_rebuild(2, None, true), RebuildEnd::Replace(_)));
    assert_eq!(finish_rebuild(2, Some(s("disk")), true), RebuildEnd::Discard(s("disk")));
    assert!(matches!(finish_rebuild(2, None, false), RebuildEnd::Discard(_)));
}

#[test]
fn rebuild_files_have_names_of_their_own() {
    assert_eq!(rebuild_name_with("snow.db", "t1"), ".snow.db.rebuild-t1.tmp");
    let one = rebuild_name("snow.db");
    let two = rebuild_name("snow.db");
    assert!(one.starts_with(".snow.db.rebuild-"));
    assert_eq!(one.len(), ".snow.db.rebuild-.tmp".len() + 36);
    assert_ne!(one, two);
}

#[test]
fn verification_names_orphans_and_unknown_documents() {
    let checked = |id: &str, path: Option<&str>, file_exists| CheckedRow {
        sys_id: s(id),
        number: s(id),
        file_path: path.map(s),
        file_exists,
    };
    let report = verify_vault(
        &vec![
            checked("a", Some("a.md"), true),
            checked("b", Some("b.md"), false),
            checked("c", None, false),
        ],
        &vec![
            ScannedDocument { sys_id: s("a"), number: s("a"), relative_path: s("a.md") },
            ScannedDocument { sys_id: s("z"), number: s("z"), relative_path: s("z.md") },
        ],
        ProjectionCounts {
            projected_references: 1,
            projected_relationships: 2,
            projected_enrichment_rows: 3,
        },
        Vec::new(),
        Vec::new(),
    );
    assert_eq!(report.active_records, 3);
    assert_eq!(report.scanned_documents, 2);
    assert!(report.orphan_record_rows.iter().any(|r| r.sys_id == "b"));
    assert!(!report.orphan_record_rows.iter().any(|r| r.sys_id == "a"));
    assert_eq!(report.unindexed_documents.len(), 1);
    assert_eq!(report.unindexed_documents[0].relative_path, "z.md");
    let orphans = report.orphan_record_rows;
    let n = orphans.len();
    let dry = prune_report(true, orphans.clone());
    assert_eq!(dry.orphan_rows_scanned, n);
    assert_eq!(dry.orphan_rows_pruned, 0);
    assert_eq!(prune_report(false, orphans).orphan_rows_pruned, n);
}

#[test]
fn repairs_fill_what_is_missing() {
    assert_eq!(
        repair_candidates(&vec![record_row("a", None), record_row("b", Some("b.md"))]),
        vec![s("INC1")]
    );
    let fixed = repaired_row(record_row("a", None), &entry("a", "a.md"));
    assert_eq!(fixed.file_path.as_deref(), Some("a.md"));
    let report = repair_report(5, &vec![true, false, true]);
    assert_eq!(report.scanned_records, 5);
    assert_eq!(report.repaired_records, 2);
    assert_eq!(report.skipped_records, 1);
}

#[test]
fn enrichment_rows_carry_their_record() {
    let rows = tag_rows(
        "rec",
        vec![EnrichmentCandidate { value: s("vpn"), origin: s("title"), weight: 2u8 }],
    );
    assert_eq!(rows[0].record_sys_id, "rec");
    assert_eq!(rows[0].tag, "vpn");
    assert_eq!(rows[0].source, "title");
    assert_eq!(rows[0].weight, 2);
}

#[test]
fn records_have_a_page_and_a_file() {
    let service = RecordService {
        base_url: s("https://x"),
        rows: vec![record_row("a", Some("a.md")), record_row("b", None)],
    };
    assert_eq!(
        service.browser_url("INC1", "incident"),
        "https://x/nav_to.do?uri=incident.do?sysparm_query=number=INC1"
    );
    assert_eq!(service.vault_relative_path_for_sys_id("a").as_deref(), Some("a.md"));
    assert_eq!(service.vault_relative_path_for_sys_id("b"), None);
}

#[test]
fn fresh_copies_are_read_before_live_ones() {
    assert_eq!(plan_record_read(Some(at(90)), None, at(100), 60), RecordRead::Memory);
    assert_eq!(plan_record_read(None, Some(at(90)), at(100), 60), RecordRead::Stored);
    assert_eq!(plan_record_read(None, None, at(100), 60), RecordRead::Nothing);
    assert!(matches!(
        plan_record_read(Some(at(0)), None, at(100), 60),
        RecordRead::Live { .. }
    ));
}

#[test]
fn invalidation_keeps_to_its_object() {
    assert_eq!(cache_object_resource_type("knowledge"), Ok((ResourceType::Knowledge, None)));
    assert_eq!(
        cache_object_resource_type("service_catalog_product"),
        Ok((ResourceType::Unknown, Some("sc_cat_item")))
    );
    assert_eq!(cache_object_resource_type("x"), Err(s("unknown cache object `x`")));
    let kb = CachedTarget { resource_type: ResourceType::Knowledge, table_name: s("kb_knowledge") };
    assert_eq!(drops_target("knowledge", Some(&kb)), Ok(true));
    assert_eq!(
        drops_target("server", Some(&kb)),
        Err(s("cached target does not belong to object `server`"))
    );
    assert_eq!(drops_target("knowledge", None), Ok(false));
    let r = |id: &str, table: &str| RecordRef { sys_id: s(id), number: s(id), table: s(table) };
    assert_eq!(
        segment_records(vec![r("a", "sc_cat_item"), r("b", "incident")], Some("sc_cat_item")),
        vec![r("a", "sc_cat_item")]
    );
}

#[test]
fn projects_have_resource_plans() {
    let relation = child_relation_for_parent_table("pm_project", None).unwrap();
    assert_eq!(relation.table, "resource_plan");
    assert_eq!(relation.link_field, "task");
    let known = ChildRelation { table: s("change_task"), link_field: s("change_request") };
    assert_eq!(
        child_relation_for_parent_table("change_request", Some(known.clone())),
        Some(known.clone())
    );
    assert_eq!(child_relation_for_parent_table("incident", None), None);
    let q = plan_children(&known, "chg-sys", &Vec::new());
    assert_eq!(q.table, "change_task");
    assert_eq!(q.conditions[0].field, "change_request");
    assert_eq!(q.conditions[0].value, "chg-sys");
}

#[test]
fn choices_are_looked_for_until_found() {
    let sources = plan_choice_sources("incident", "state", true, &vec![s("task_parent")]);
    assert_eq!(sources[0], ChoiceSource::Table(s("incident")));
    assert!(sources.contains(&ChoiceSource::Interface));
    assert!(sources.contains(&ChoiceSource::Table(s("task"))));
    assert!(wants_more_choices(&vec![Vec::new()]));
    assert!(!wants_more_choices(&vec![vec![FieldChoice {
        value: s("1"),
        label: s("New"),
        terminal: false,
    }]]));
    assert_eq!(plan_search(true, true), SearchPlan::Number);
    assert_eq!(plan_search(true, false), SearchPlan::Nothing);
}

#[test]
fn catalog_limits_are_clamped() {
    assert_eq!(clamp_limit(0), 1);
    assert_eq!(clamp_limit(7), 7);
    assert_eq!(clamp_limit(1000), 50);
    assert!(catalog_search_query(" ", 5).is_none());
    assert_eq!(catalog_search_query("vpn", 5).unwrap().limit, Some(5));
    assert!(plan_variables("cat_item", &Vec::new(), true).is_none());
    assert!(choice_query(&Vec::new()).is_none());
}

#[test]
fn catalog_variables_come_once_with_their_choices() {
    let variable = |id: &str| Row {
        table: s("item_option_new"),
        sys_id: s(id),
        cells: cells(&[("name", "os"), ("question_text", "OS"), ("mandatory", "true")]),
    };
    let choice = Row {
        table: s("question_choice"),
        sys_id: s("c1"),
        cells: cells(&[("question", "v1"), ("value", "mac"), ("text", "macOS")]),
    };
    let found = catalog_variables(vec![variable("v1"), variable("v1"), variable("v2")], &vec![choice]);
    assert_eq!(found.len(), 2);
    assert_eq!(found[0].name, "os");
    assert!(found[0].mandatory);
    assert_eq!(found[0].choices.len(), 1);
    assert_eq!(found[0].choices[0].value, "mac");
    assert_eq!(found[0].choices[0].label, "macOS");
    assert!(found[1].choices.is_empty());
    let sets = catalog_variable_set_ids(&vec![
        Row { table: s("t"), sys_id: s("1"), cells: cells(&[("variable_set", "set-1")]) },
        Row { table: s("t"), sys_id: s("2"), cells: cells(&[("variable_set", "set-2")]) },
    ]);
    assert_eq!(sets, vec![s("set-1"), s("set-2")]);
}

#[test]
fn cached_catalogs_are_as_old_as_their_oldest_item() {
    assert!(matches!(
        plan_catalog_read(CacheMode::ReadThrough, Some(60), &vec![at(90), at(80)], at(100)),
        CatalogRead::Cached { last_refreshed_at } if last_refreshed_at == at(80)
    ));
    assert!(!matches!(
        plan_catalog_read(CacheMode::ReadThrough, Some(60), &vec![at(90), at(10)], at(100)),
        CatalogRead::Cached { .. }
    ));
    assert!(!keeps_live_items(CacheMode::Live, 3));
}

fn reply() -> CatalogReply {
    CatalogReply {
        request_id: Some(s("req-sys")),
        request_number: Some(s("REQ0000001")),
        table: None,
        sys_id: None,
        number: None,
        nested_sys_id: None,
        nested_number: None,
        nested_table: None,
        items: Some(vec![CatalogReplyItem {
            sys_id: Some(s("ritm-sys")),
            number: Some(s("RITM0000001")),
        }]),
        request_items: None,
        request_item: None,
    }
}

#[test]
fn submitted_items_win_over_their_request() {
    let result = catalog_submit_result_from_response(s(ID), &reply(), "https://x/", "");
    assert_eq!(result.table.as_deref(), Some("sc_req_item"));
    assert_eq!(result.sys_id.as_deref(), Some("ritm-sys"));
    assert_eq!(result.number.as_deref(), Some("RITM0000001"));
    assert_eq!(result.request_sys_id.as_deref(), Some("req-sys"));
    assert_eq!(
        result.browser_url.as_deref(),
        Some("https://x/sp?id=ticket&table=sc_req_item&sys_id=ritm-sys&view=sp")
    );
    assert_eq!(reread_target(&result), Some((s("sc_req_item"), s("ritm-sys"))));
    let again = with_reread(result, s("sc_req_item"), s("ritm-sys"), s("RITM0000002"));
    assert_eq!(again.number.as_deref(), Some("RITM0000002"));
}

#[test]
fn requests_lead_to_their_item() {
    let bare = CatalogReply { items: None, ..reply() };
    let result = catalog_submit_result_from_response(s(ID), &bare, "https://x", "portal");
    assert_eq!(wanted_request(&result).as_deref(), Some("req-sys"));
    let item = Row {
        table: s("sc_req_item"),
        sys_id: s("ritm-sys"),
        cells: cells(&[("number", "RITM0000001")]),
    };
    let full = with_request_item(result, &item, "https://x", "portal");
    assert_eq!(full.request_item_sys_id.as_deref(), Some("ritm-sys"));
    assert_eq!(
        full.browser_url.as_deref(),
        Some("https://x/portal?id=ticket&table=sc_req_item&sys_id=ritm-sys&view=sp")
    );
    assert_eq!(next_lookup(0, ItemLookup::Found), LookupStep::Take);
    assert_eq!(next_lookup(0, ItemLookup::Absent), LookupStep::Wait);
    assert_eq!(next_lookup(99, ItemLookup::Absent), LookupStep::GiveUp);
    assert_eq!(
        order_path(ID).unwrap(),
        format!("/api/sn_sc/v1/servicecatalog/items/{}/order_now", ID)
    );
    assert!(order_path("x").is_err());
}

#[test]
fn writes_are_reported_as_they_were_read_back() {
    let fresh = FreshRow { table: s("rm_story"), sys_id: s("a") };
    assert_eq!(check_refetch("rm_story", "a", "STRY1", Some(&fresh)), Ok(()));
    assert_eq!(
        check_refetch("rm_story", "a", "STRY1", None),
        Err(s("rm_story write response returned STRY1, but fresh refetch by sys_id a found no row"))
    );
    assert_eq!(
        check_refetch("rm_story", "b", "STRY1", Some(&fresh)),
        Err(s("rm_story write refetched sys_id a, expected b"))
    );
    let elsewhere = FreshRow { table: s("incident"), sys_id: s("a") };
    assert!(check_refetch("rm_story", "a", "STRY1", Some(&elsewhere)).is_err());
    assert_eq!(refetch_id("rm_story", "a"), Ok(s("a")));
    assert_eq!(
        refetch_id("rm_story", " "),
        Err(s("rm_story write response did not include a sys_id to refetch"))
    );
}

#[test]
fn accepted_writes_fail_locally_only() {
    assert_eq!(
        incident_write_error(IncidentWriteStage::Patch, s("refused")).message(),
        "refused"
    );
    assert_eq!(
        incident_write_error(IncidentWriteStage::Prune, s("disk")).message(),
        "local Incident coherence failed after ServiceNow accepted the PATCH: disk"
    );
    assert_eq!(
        missing_write_client().message(),
        "governed Incident write client is not configured"
    );
}

fn card(id: &str, user: &str, editable: bool) -> TimeCard {
    TimeCard { sys_id: s(id), user_sys_id: s(user), state: s("Submitted"), editable }
}

#[test]
fn sheets_hold_the_day_they_are_found_for() {
    let starts = vec![Some(107), None, Some(100), Some(93)];
    assert_eq!(find_week(&starts, 103, "today"), Ok(2));
    assert_eq!(find_week(&starts, 106, "today"), Ok(2));
    assert_eq!(find_week(&starts, 107, "today"), Ok(0));
    assert_eq!(
        find_week(&starts, 92, "2026-01-01"),
        Err(s("No time sheet found for 2026-01-01. This command edits existing cards only; create them in the portal first."))
    );
    let q = sheet_query("time_sheet", "u1");
    assert_eq!(q.limit, Some(80));
    let head = read_sheet(
        &Row {
            table: s("time_sheet"),
            sys_id: s("sheet-1"),
            cells: cells(&[("week_starts_on", "2026-05-04"), ("state", "Pending")]),
        },
        "time_sheet",
    );
    assert_eq!(head.sheet.sys_id, "sheet-1");
    assert_eq!(head.week_starts_on, "2026-05-04");
    assert_eq!(head.state, "Pending");
    assert!(week_cards_query("time_card", "u1", "2026-05-04", true).is_none());
    assert!(week_cards_query("time_card", "u1", "2026-05-04", false).is_some());
}

#[test]
fn cards_of_others_stay_untouched() {
    assert_eq!(
        cards_of_user(vec![card("a", "u1", true), card("b", "u2", true)], "u1"),
        vec![card("a", "u1", true)]
    );
    assert_eq!(ensure_timecard_write_allowed(&card("a", "u1", true), "u1"), Ok(()));
    assert_eq!(
        ensure_timecard_write_allowed(&card("a", "u2", true), "u1"),
        Err(s("time card a belongs to user u2, not the authenticated user"))
    );
    assert_eq!(
        ensure_timecard_write_allowed(&card("a", "u1", false), "u1"),
        Err(s("time card sheet is Submitted; recall it in the portal to edit"))
    );
    assert_eq!(card_id(" a "), Ok(s("a")));
    assert_eq!(card_id("  "), Err(s("time card sys_id cannot be empty")));
    assert_eq!(check_updated_card(Some(&card("a", "u1", true)), "a"), Ok(()));
    assert_eq!(
        check_updated_card(None, "a"),
        Err(s("time card disappeared after update: a"))
    );
    assert_eq!(
        check_updated_card(Some(&card("b", "u1", true)), "a"),
        Err(s("time card update refetched sys_id b, expected a"))
    );
}

fn day(year: i32, month: u32, day: u32) -> i32 {
    chrono::NaiveDate::from_ymd_opt(year, month, day).unwrap().num_days_from_ce()
}

fn sheet_row(week_starts_on: &str) -> Row {
    Row {
        table: s("time_sheet"),
        sys_id: format!("sheet-{week_starts_on}"),
        cells: cells(&[("week_starts_on", week_starts_on)]),
    }
}

#[test]
fn current_week_selects_monday_start_sheet_containing_today() {
    let rows = vec![sheet_row("2026-05-25"), sheet_row("2026-05-18"), sheet_row("2026-05-11")];
    let at = find_sheet(&rows, &WeekSelector::Current, day(2026, 5, 22)).unwrap();
    assert_eq!(rows[at].get_str("week_starts_on"), Some("2026-05-18"));
}

#[test]
fn sheets_are_found_by_the_day_they_begin_with() {
    let rows = vec![
        sheet_row("soon"),
        sheet_row("2026-13-01"),
        sheet_row(" 2026-05-17 00:00:00"),
        Row { table: s("time_sheet"), sys_id: s("bare"), cells: Vec::new() },
    ];
    let of = |year: i32, month: u32, number: u32| WeekSelector::Date {
        day: day(year, month, number),
        label: format!("{year:04}-{month:02}-{number:02}"),
    };
    assert_eq!(find_sheet(&rows, &of(2026, 5, 17), 0), Ok(2));
    assert_eq!(find_sheet(&rows, &of(2026, 5, 23), 0), Ok(2));
    assert_eq!(
        find_sheet(&rows, &of(2026, 5, 24), day(2026, 5, 17)),
        Err(s("No time sheet found for 2026-05-24. This command edits existing cards only; create them in the portal first."))
    );
    assert_eq!(
        find_sheet(&rows, &WeekSelector::Current, day(2026, 5, 16)),
        Err(s("No time sheet found for current week. This command edits existing cards only; create them in the portal first."))
    );
}

fn fresh_row(list: &[(&str, &str)]) -> Row {
    Row { table: s("incident"), sys_id: s("inc-sys"), cells: cells(list) }
}

#[test]
fn rows_read_back_say_how_far_they_have_come() {
    let counted = fresh_row(&[("sys_updated_on", "2026-06-24 10:11:12"), ("sys_mod_count", "1")]);
    let result = write_result_from_fresh_row(counted).unwrap();
    assert_eq!(result.concurrency.sys_updated_on, "2026-06-24 10:11:12");
    assert_eq!(result.concurrency.sys_mod_count, Some(1));
    assert_eq!(result.row.sys_id, "inc-sys");
    let uncounted = fresh_row(&[("sys_updated_on", "2026-05-19 09:05:00")]);
    let result = write_result_from_fresh_row(uncounted).unwrap();
    assert_eq!(result.concurrency.sys_updated_on, "2026-05-19 09:05:00");
    assert_eq!(result.concurrency.sys_mod_count, None);
    let undated = fresh_row(&[("sys_updated_on", " "), ("sys_mod_count", "1")]);
    assert_eq!(
        write_result_from_fresh_row(undated).err(),
        Some(s("fresh row does not say when it was updated"))
    );
}

#[test]
fn incident_writes_go_step_by_step() {
    let row = fresh_row(&[("sys_updated_on", "2026-06-24 10:11:12"), ("sys_mod_count", "24")]);
    let write = IncidentWrite::start(true).ok().unwrap();
    assert!(matches!(write, IncidentWrite::Patch));
    let write = write.take(IncidentReply::Patched(Ok(()))).ok().unwrap();
    assert!(matches!(write, IncidentWrite::Reread));
    let write = write.take(IncidentReply::Fresh(Ok(row))).ok().unwrap();
    assert!(matches!(write, IncidentWrite::Prune(_)));
    match write.take(IncidentReply::Pruned(Ok(()))) {
        Ok(IncidentWrite::Done(result)) => {
            assert_eq!(result.row.sys_id, "inc-sys");
            assert_eq!(result.concurrency.sys_mod_count, Some(24));
        }
        _ => panic!("the write is over"),
    }
}

#[test]
fn incident_writes_fail_at_the_step_that_failed() {
    assert_eq!(
        IncidentWrite::start(false).err(),
        Some(IncidentWriteError::Upstream(s("governed Incident write client is not configured")))
    );
    assert_eq!(
        IncidentWrite::Patch.take(IncidentReply::Patched(Err(s("500")))).err(),
        Some(IncidentWriteError::Upstream(s("500")))
    );
    assert_eq!(
        IncidentWrite::Reread.take(IncidentReply::Fresh(Err(s("lost")))).err(),
        Some(IncidentWriteError::LocalCoherence(s("lost")))
    );
    assert_eq!(
        IncidentWrite::Reread.take(IncidentReply::Fresh(Ok(fresh_row(&[])))).err(),
        Some(IncidentWriteError::LocalCoherence(s("fresh row does not say when it was updated")))
    );
    let read = fresh_row(&[("sys_updated_on", "2026-06-24 10:11:12")]);
    let write = IncidentWrite::Reread.take(IncidentReply::Fresh(Ok(read))).ok().unwrap();
    assert_eq!(
        write.take(IncidentReply::Pruned(Err(s("disk")))).err(),
        Some(IncidentWriteError::LocalCoherence(s("disk")))
    );
}
