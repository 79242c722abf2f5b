use snow_core::knowledge_index::{
    base_group, find_base_directory_by_sys_id, order_groups, plan_indexes,
    relative_from_base_index, render_base_index_from_rows, render_global_index, ActiveBase,
    BaseGroup, CategoryCount, IndexStep, KnowledgeIndexRow, KnowledgeTagSummary,
};
use snow_core::knowledge_sync::{
    apply_simple_encoded_filter, base_knowledge_query, completed_outcome, determine_sync_mode,
    finish_sync, incremental_queries, knowledge_article_query, knowledge_list_query,
    knowledge_search_query, locked_outcome, next_sync_state, parse_duration,
    reconcile_full_knowledge_sync, with_bodies, KbSyncState, KnowledgeSyncMode,
    Moment, RecordLifecycle, Removal, StoredArticle, WatermarkProgress,
};
use snow_core::query::{Operator, Query};
use snow_core::row::{Cell, Row};
use snow_core::tags::KnowledgeTagLayer;

fn s(text: &str) -> String {
    text.to_string()
}

fn list(items: &[&str]) -> Vec<String> {
    items.iter().map(|t| t.to_string()).collect()
}

fn at(seconds: i64) -> Moment {
    Moment { seconds, nanos: 0 }
}

fn row(sys_id: &str, updated: &str) -> Row {
    Row {
        table: s("kb_knowledge"),
        sys_id: s(sys_id),
        cells: vec![Cell {
            name: s("sys_updated_on"),
            raw: Some(s(updated)),
            display: None,
            other: None,
        }],
    }
}

fn conditions(q: &Query) -> Vec<(bool, String, Operator, String)> {
    q.conditions
        .iter()
        .map(|c| (c.alternative, c.field.clone(), c.operator, c.value.clone()))
        .collect()
}

#[test]
fn sync_mode_promotes_to_full_without_watermark_or_when_stale() {
    let now = at(1_800_000_000);
    assert_eq!(
        determine_sync_mode(false, Some("7d"), None, None, None, now),
        KnowledgeSyncMode::Full
    );
    assert_eq!(
        determine_sync_mode(
            false,
            Some("7d"),
            Some(at(1_800_000_000 - 10 * 86_400)),
            Some("2026-04-10 10:00:00"),
            Some("kb-1"),
            now,
        ),
        KnowledgeSyncMode::Full
    );
    assert_eq!(
        determine_sync_mode(
            false,
            Some("7d"),
            Some(now),
            Some("2026-04-10 10:00:00"),
            Some("kb-1"),
            now,
        ),
        KnowledgeSyncMode::Incremental
    );
}

#[test]
fn parse_duration_understands_day_hour_minute_and_second_suffixes() {
    assert_eq!(parse_duration("15s"), Some(15));
    assert_eq!(parse_duration("2m"), Some(120));
    assert_eq!(parse_duration("3h"), Some(10_800));
    assert_eq!(parse_duration("7d"), Some(604_800));
    assert_eq!(parse_duration("bad"), None);
}

#[test]
fn requested_full_passes_are_full() {
    assert_eq!(
        determine_sync_mode(true, None, Some(at(5)), Some("t"), Some("x"), at(6)),
        KnowledgeSyncMode::Full
    );
    assert!(with_bodies(false, KnowledgeSyncMode::Incremental));
    assert!(!with_bodies(false, KnowledgeSyncMode::Full));
}

#[test]
fn watermarks_take_the_latest_row_in_any_order() {
    let rows = [
        row("b", "2026-04-10 10:00:00"),
        row("a", "2026-04-10 10:00:00"),
        row("c", "2026-04-09 10:00:00"),
    ];
    let mut forth = WatermarkProgress::new();
    for r in rows.iter() {
        forth.observe(r, Some("base-1"));
    }
    let mut back = WatermarkProgress::new();
    for r in rows.iter().rev() {
        back.observe(r, Some("base-1"));
    }
    assert_eq!(forth.watermark_updated_at.as_deref(), Some("2026-04-10 10:00:00"));
    assert_eq!(forth.watermark_sys_id.as_deref(), Some("b"));
    assert_eq!(back.watermark_updated_at, forth.watermark_updated_at);
    assert_eq!(back.watermark_sys_id, forth.watermark_sys_id);
    assert_eq!(forth.processed, 3);
    assert_eq!(forth.changed_base_sys_ids, list(&["base-1"]));
    forth.observe_existing_base(Some("base-0"), Some("base-1"));
    assert!(forth.changed_base_sys_ids.contains(&s("base-0")));
}

#[test]
fn missing_articles_are_tombstoned_then_pruned() {
    let stored = |id: &str, lifecycle| StoredArticle {
        sys_id: s(id),
        knowledge_base_sys_id: Some(s("base-1")),
        lifecycle,
    };
    let mut progress = WatermarkProgress::new();
    progress.observe(&row("seen", "2026-04-10 10:00:00"), Some("base-2"));
    let removals = reconcile_full_knowledge_sync(
        &vec![
            stored("seen", RecordLifecycle::Active),
            stored("gone", RecordLifecycle::Active),
            stored("buried", RecordLifecycle::Tombstoned),
        ],
        &mut progress,
    );
    assert_eq!(removals, vec![Removal::Tombstone(s("gone")), Removal::Prune(s("buried"))]);
    assert_eq!(progress.tombstoned, 1);
    assert_eq!(progress.pruned, 1);
    assert!(progress.removed_record_sys_ids.contains(&s("gone")));
    assert!(progress.changed_base_sys_ids.contains(&s("base-1")));
}

#[test]
fn finished_passes_release_the_lock_and_keep_the_watermark() {
    let before = KbSyncState {
        last_full_at: Some(at(1)),
        last_incr_at: None,
        watermark_updated_at: Some(s("old")),
        watermark_sys_id: Some(s("x")),
        kb_sync_lock: Some(99),
    };
    let next = next_sync_state(
        before,
        &WatermarkProgress::new(),
        KnowledgeSyncMode::Incremental,
        at(50),
    );
    assert_eq!(next.kb_sync_lock, None);
    assert_eq!(next.last_full_at, Some(at(1)));
    assert_eq!(next.last_incr_at, Some(at(50)));
    assert_eq!(next.watermark_updated_at.as_deref(), Some("old"));
}

#[test]
fn outcomes_say_what_was_done() {
    let done = completed_outcome(
        KnowledgeSyncMode::Full,
        true,
        &WatermarkProgress::new(),
        4,
    );
    assert!(done.accepted);
    assert_eq!(done.status, "completed");
    assert_eq!(
        done.details.as_deref(),
        Some("processed 0 articles, auto-tag drift 4, tombstoned 0, pruned 0")
    );
    let locked = locked_outcome(true, false);
    assert!(!locked.accepted);
    assert_eq!(locked.mode, KnowledgeSyncMode::Full);
    assert_eq!(finish_sync(Ok(done.clone()), Ok(())), Ok(done.clone()));
    assert_eq!(finish_sync(Err(s("first")), Ok(())), Err(s("first")));
    assert!(finish_sync(Ok(done), Err(s("lock"))).is_err());
}

#[test]
fn encoded_filters_become_conditions() {
    let q = apply_simple_encoded_filter(Query::of("kb_knowledge"), "a=1^b!=2").unwrap();
    assert_eq!(
        conditions(&q),
        vec![
            (false, s("a"), Operator::Equals, s("1")),
            (false, s("b"), Operator::NotEquals, s("2")),
        ]
    );
    assert!(apply_simple_encoded_filter(Query::of("kb_knowledge"), "aLIKEb").is_err());
}

#[test]
fn incremental_passes_ask_for_both_sides_of_the_watermark() {
    let (same, later) =
        incremental_queries("2026-04-10 10:00:00", "kb-1", Some("active=true")).unwrap();
    assert!(conditions(&later).contains(&(
        false,
        s("sys_updated_on"),
        Operator::GreaterThan,
        s("2026-04-10 10:00:00")
    )));
    assert!(conditions(&same).contains(&(
        false,
        s("sys_updated_on"),
        Operator::Equals,
        s("2026-04-10 10:00:00")
    )));
    assert!(conditions(&same).contains(&(false, s("sys_id"), Operator::GreaterThan, s("kb-1"))));
    assert!(incremental_queries("t", "x", Some("bad filter")).is_err());
    let full = base_knowledge_query(true, None).unwrap();
    let brief = base_knowledge_query(false, None).unwrap();
    assert!(full.fields.contains(&s("text")));
    assert!(!brief.fields.contains(&s("text")));
}

#[test]
fn live_knowledge_queries_are_bounded() {
    let base = Some("IT Support");
    let id = "0123456789abcdef0123456789abcdef";
    assert!(knowledge_search_query("  ", None, base, None, None).unwrap().is_none());
    let q = knowledge_search_query(" vpn ", Some(3), base, Some(id), None).unwrap().unwrap();
    assert_eq!(q.limit, Some(3));
    let found = conditions(&q);
    assert_eq!(
        &found[found.len() - 3..],
        &[
            (false, s("short_description"), Operator::Contains, s("vpn")),
            (false, s("kb_knowledge_base.name"), Operator::Contains, s("IT Support")),
            (false, s("kb_category"), Operator::Equals, s(id)),
        ]
    );
    let (q, most) = knowledge_list_query(Some(id), Some("Network"), Some(7), None).unwrap();
    assert_eq!(most, Some(7));
    assert_eq!(q.limit, Some(7));
    let listed = conditions(&q);
    assert_eq!(
        &listed[listed.len() - 2..],
        &[
            (false, s("kb_knowledge_base"), Operator::Equals, s(id)),
            (false, s("kb_category.name"), Operator::Contains, s("Network")),
        ]
    );
    let (q, most) = knowledge_list_query(None, Some(" "), None, None).unwrap();
    assert_eq!(most, None);
    assert!(!conditions(&q).iter().any(|c| c.1.starts_with("kb_")));
    let one = knowledge_article_query("KB001");
    assert!(conditions(&one).contains(&(false, s("number"), Operator::Equals, s("KB001"))));
}

fn index_row(number: &str, title: &str, category: (&str, &str), path: &str) -> KnowledgeIndexRow {
    KnowledgeIndexRow {
        number: s(number),
        title: s(title),
        category_sys_id: s(category.0),
        category_name: s(category.1),
        file_path: s(path),
        sn_tags: list(&["vpn"]),
        auto_tags: Vec::new(),
        user_tags: Vec::new(),
    }
}

#[test]
fn paths_are_taken_relative_to_the_base() {
    assert_eq!(
        relative_from_base_index("knowledge/it--1/cat/KB1.md", "knowledge/it--1").as_deref(),
        Some("cat/KB1.md")
    );
    assert_eq!(relative_from_base_index("other/KB1.md", "knowledge/it--1"), None);
}

#[test]
fn base_pages_group_articles_by_category() {
    let page = render_base_index_from_rows(
        "IT",
        "knowledge/it--1",
        &vec![
            index_row("KB2", "Two", ("c2", "Network"), "knowledge/it--1/n/KB2.md"),
            index_row("KB1", "One", ("c1", "Accounts"), "knowledge/it--1/a/KB1.md"),
        ],
    );
    assert!(page.contains("- [`KB1`](a/KB1.md) **One** - `vpn`\n"));
    let first = page.find("KB1").unwrap();
    let second = page.find("KB2").unwrap();
    assert!(first < second);
}

#[test]
fn the_catalog_page_counts_bases_and_articles() {
    let group = base_group(
        s("b1"),
        s("IT"),
        s("kb_b1_it"),
        vec![CategoryCount {
            sys_id: s("c1"),
            name: s("Accounts"),
            anchor: s("accounts"),
            article_count: 3,
        }],
    );
    let tags = vec![KnowledgeTagSummary {
        tag: s("vpn"),
        count: 2,
        layers: vec![KnowledgeTagLayer::Sn],
    }];
    let page = render_global_index(&vec![group], &tags, 0).unwrap();
    assert!(page.starts_with(
        "# ServiceNow Knowledge Catalog\n\n_Last synced: 1970-01-01 00:00 UTC \u{b7} 3 articles across 1 knowledge bases_\n\n"
    ));
    assert!(page.contains("## All tags (top 50)\n"));
    assert_eq!(render_global_index(&Vec::new(), &Vec::new(), i64::MAX), None);
}

#[test]
fn groups_are_ordered_by_name() {
    let group = |id: &str, name: &str| BaseGroup {
        sys_id: s(id),
        name: s(name),
        dir_name: s(id),
        categories: Vec::new(),
    };
    let ordered = order_groups(vec![group("b2", "Security"), group("b1", "HR")]);
    assert_eq!(ordered[0].name, "HR");
    assert_eq!(ordered[1].name, "Security");
}

#[test]
fn incremental_passes_rebuild_changed_bases_only() {
    let bases = vec![
        ActiveBase { sys_id: s("b1"), name: s("IT"), dir_name: s("kb_b1_it") },
        ActiveBase { sys_id: s("b2"), name: s("HR"), dir_name: s("kb_b2_hr") },
    ];
    let dirs = list(&["kb_b1_it", "kb_b2_hr", "kb_b9"]);
    assert_eq!(find_base_directory_by_sys_id(&dirs, "b9").as_deref(), Some("kb_b9"));
    assert_eq!(find_base_directory_by_sys_id(&dirs, "b7"), None);
    let full = plan_indexes(KnowledgeSyncMode::Full, &bases, &dirs, &Vec::new());
    assert_eq!(full.len(), 3);
    assert!(matches!(&full[0], IndexStep::DropStale { dir_name } if dir_name == "kb_b9"));
    let part = plan_indexes(KnowledgeSyncMode::Incremental, &bases, &dirs, &list(&["b2"]));
    assert_eq!(part.len(), 1);
}

#[test]
fn intervals_that_are_not_needed_may_be_out_of_range() {
    let now = at(1_800_000_000);
    let endless = Some("9999999999999999999d");
    let mark = Some("2026-04-10 10:00:00");
    assert_eq!(
        determine_sync_mode(true, endless, None, mark, Some("kb-1"), now),
        KnowledgeSyncMode::Full
    );
    assert_eq!(
        determine_sync_mode(false, endless, None, None, None, now),
        KnowledgeSyncMode::Full
    );
}
