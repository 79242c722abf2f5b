use snow_core::embedding_run::EmbeddingRun;
use snow_core::incident_queue::{IncidentQueueSlaRisk, IncidentSlaBucket};
use snow_core::knowledge_index::{base_page_fate, KnowledgeIndexRow, PageFate};
use snow_core::knowledge_service::{
    distinct_rows, needs_ingest, plan_article_read, union_of, ArticleRead, ArticleRow, CacheMode,
    KnowledgeBaseRow, KnowledgeCategoryRow, KnowledgeService, TagRow,
};
use snow_core::knowledge_sync::{KbSyncState, KnowledgeSyncMode, Moment};
use snow_core::query::Operator;
use snow_core::queue_answer::{queue_answer, queue_items, QueueRequest, QueueStanding};
use snow_core::queue_items::{IncidentQueueSortBy, IncidentQueueSortDirection};
use snow_core::row::{Cell, Row};
use snow_core::semantic::{
    comparable_rows, coverage_of_text, has_embeddings, knowledge_semantic_status, merge_found,
    rank_hybrid_hits, rank_semantic_hits, route_after_failure, route_search, search_bounds,
    semantic_index_summary, semantic_provider_from_config, EmbeddingInput, EmbeddingProviderKind,
    EmbeddingRow, FoundArticle, HybridArticle, KnowledgeEmbeddingCoverage, KnowledgeSearchMode,
    KnowledgeSemanticSearchFilters, ScoredArticle, SearchRoute, SemanticConfig, SemanticMeta,
};
use snow_core::sync_plan::{last_synced, plan_sync};
use snow_core::tags::KnowledgeTagLayer;

fn s(text: &str) -> String {
    text.to_string()
}

fn at(seconds: i64) -> Moment {
    Moment { seconds, nanos: 0 }
}

fn config() -> SemanticConfig {
    SemanticConfig {
        enabled: true,
        provider: s("ollama"),
        model: s("m"),
        endpoint: s("http://x"),
        batch_size: 2,
        top_k: 10,
        candidate_pool: 50,
        min_score_millis: 350,
        hybrid_fallback_to_lexical: true,
    }
}

fn embedded(id: &str, model: &str, hash: &str) -> EmbeddingRow {
    EmbeddingRow {
        record_sys_id: s(id),
        model: s(model),
        provider: s("ollama"),
        dimensions: 3,
        coverage: KnowledgeEmbeddingCoverage::FullText,
        content_hash: s(hash),
    }
}

fn wanted(id: &str, hash: &str) -> EmbeddingInput {
    EmbeddingInput {
        record_sys_id: s(id),
        coverage: KnowledgeEmbeddingCoverage::FullText,
        content_hash: s(hash),
        input: format!("text of {}", id),
    }
}

#[test]
fn only_what_changed_is_embedded_again() {
    let rows = vec![embedded("a", "m", "1"), embedded("b", "m", "old"), embedded("c", "other", "3")];
    let inputs = vec![wanted("a", "1"), wanted("b", "2"), wanted("c", "3"), wanted("d", "4")];
    let run = EmbeddingRun::start(false, inputs, &rows, "m", "ollama", 2);
    let first = run.batch().unwrap();
    assert_eq!(first, vec![s("text of b"), s("text of c")]);
    let (run, stored) = run.take(&vec![3, 3]).unwrap();
    assert_eq!(stored.len(), 2);
    assert_eq!(stored[0].record_sys_id, "b");
    assert_eq!(stored[0].content_hash, "2");
    assert_eq!(run.batch().unwrap(), vec![s("text of d")]);
    assert_eq!(
        run.take(&vec![3, 3]).err().as_deref(),
        Some("semantic embedding provider returned 2 vectors for 1 inputs")
    );
}

#[test]
fn full_rebuilds_embed_everything() {
    let rows = vec![embedded("a", "m", "1")];
    let run = EmbeddingRun::start(true, vec![wanted("a", "1")], &rows, "m", "ollama", 0);
    assert_eq!(run.batch().unwrap().len(), 1);
    let (run, stored) = run.take(&vec![4]).unwrap();
    assert_eq!(stored[0].dimensions, 4);
    assert!(run.batch().is_none());
    assert_eq!(run.indexed_rows(), 1);
}

#[test]
fn settings_decide_on_the_provider() {
    assert_eq!(semantic_provider_from_config(&config()), Ok(EmbeddingProviderKind::Ollama));
    let fault = |c: SemanticConfig| semantic_provider_from_config(&c).unwrap_err();
    assert_eq!(
        fault(SemanticConfig { enabled: false, ..config() }),
        "semantic KB search is not enabled"
    );
    assert_eq!(
        fault(SemanticConfig { model: s(" "), ..config() }),
        "semantic KB search model is not configured"
    );
    assert_eq!(
        fault(SemanticConfig { provider: s("acme"), ..config() }),
        "unsupported semantic embedding provider `acme`"
    );
    assert_eq!(
        fault(SemanticConfig { endpoint: s(""), ..config() }),
        "semantic KB search endpoint is not configured"
    );
}

#[test]
fn searches_take_their_route() {
    use_route(KnowledgeSearchMode::Lexical, None, SearchRoute::Lexical(KnowledgeSearchMode::Lexical));
    use_route(KnowledgeSearchMode::Semantic, None, SearchRoute::Semantic);
    use_route(KnowledgeSearchMode::Hybrid, None, SearchRoute::Hybrid);
    use_route(KnowledgeSearchMode::Hybrid, Some("KB001"), SearchRoute::Exact(s("KB001")));
    assert_eq!(
        route_search(KnowledgeSearchMode::Semantic, true, None, Err(s("off")), true),
        SearchRoute::Nothing
    );
    assert_eq!(
        route_search(KnowledgeSearchMode::Semantic, false, None, Err(s("off")), true),
        SearchRoute::Refused(s("off"))
    );
    assert_eq!(
        route_search(KnowledgeSearchMode::Hybrid, false, None, Err(s("off")), true),
        SearchRoute::Lexical(KnowledgeSearchMode::Hybrid)
    );
    assert_eq!(route_after_failure(s("down"), false), SearchRoute::Refused(s("down")));
}

fn use_route(mode: KnowledgeSearchMode, number: Option<&str>, expected: SearchRoute) {
    let route =
        route_search(mode, false, number.map(s), Ok(EmbeddingProviderKind::Ollama), true);
    assert_eq!(route, expected);
}

#[test]
fn searches_are_bounded_by_what_was_asked() {
    let filters = KnowledgeSemanticSearchFilters {
        knowledge_base: None,
        category: None,
        limit: Some(3),
        mode: KnowledgeSearchMode::Semantic,
        min_score_millis: None,
    };
    let bounds = search_bounds(&filters, &config());
    assert_eq!(bounds.limit, 3);
    assert_eq!(bounds.candidate_pool, 50);
    assert_eq!(bounds.min_score_millis, 350);
    let rows = vec![embedded("a", "m", "1"), embedded("b", "x", "1"), embedded("c", "m", "1")];
    assert!(has_embeddings(&rows, "m"));
    assert!(!has_embeddings(&rows, "y"));
    let kept = comparable_rows(rows, "m", &vec![s("a"), s("b")]);
    assert_eq!(kept.len(), 1);
    assert_eq!(kept[0].record_sys_id, "a");
}

fn scored(id: &str, number: &str, score: i64) -> ScoredArticle {
    ScoredArticle {
        record_sys_id: s(id),
        number: s(number),
        score,
        coverage: KnowledgeEmbeddingCoverage::Metadata,
    }
}

#[test]
fn better_hits_come_first() {
    let hits = rank_semantic_hits(
        vec![scored("a", "KB2", 5), scored("b", "KB1", 5), scored("c", "KB3", 9), scored("d", "KB4", 1)],
        2,
        3,
        2,
    );
    let ids: Vec<&str> = hits.iter().map(|h| h.record_sys_id.as_str()).collect();
    assert_eq!(ids, vec!["c", "b"]);
}

#[test]
fn both_searches_are_merged() {
    let found = |id: &str| FoundArticle {
        record_sys_id: s(id),
        coverage: coverage_of_text(true),
    };
    let merged = merge_found(&vec![found("b"), found("a")], &vec![found("a"), found("c")]);
    assert_eq!(merged.len(), 3);
    assert_eq!(merged[0].record_sys_id, "a");
    assert_eq!(merged[0].lexical_rank, Some(2));
    assert_eq!(merged[0].semantic_ranks, vec![1]);
    assert_eq!(merged[2].lexical_rank, None);
    let hit = |id: &str, exact: bool, score: i64| HybridArticle {
        record_sys_id: s(id),
        number: s(id),
        exact,
        score,
    };
    let ranked = rank_hybrid_hits(vec![hit("a", false, 9), hit("b", true, 1), hit("c", false, 3)], 2);
    assert_eq!(ranked[0].record_sys_id, "b");
    assert_eq!(ranked[1].record_sys_id, "a");
    assert_eq!(ranked.len(), 2);
}

#[test]
fn the_index_knows_how_it_stands() {
    let rows = vec![embedded("a", "m", "1"), embedded("b", "m", "old")];
    let inputs = vec![wanted("a", "1"), wanted("b", "2")];
    let meta = SemanticMeta { last_rebuild_at: Some(5), last_error: None };
    let status = knowledge_semantic_status(&config(), &rows, &inputs, 4, meta);
    assert_eq!(status.active_kb_articles, 2);
    assert_eq!(status.full_text_embeddings, 2);
    assert_eq!(status.stale_rows, 1);
    assert_eq!(status.orphan_rows, 4);
    assert_eq!(status.dimensions, 3);
    let summary = semantic_index_summary(true, 2, status);
    assert!(summary.full);
    assert_eq!(summary.indexed_rows, 2);
    assert_eq!(summary.last_rebuild_at, Some(5));
}

fn state(updated_at: Option<&str>, sys_id: Option<&str>) -> KbSyncState {
    KbSyncState {
        last_full_at: Some(at(1000)),
        last_incr_at: Some(at(2000)),
        watermark_updated_at: updated_at.map(s),
        watermark_sys_id: sys_id.map(s),
        kb_sync_lock: None,
    }
}

#[test]
fn passes_ask_for_what_is_due() {
    let first = plan_sync(false, false, Some("7d"), &state(None, None), at(1500), None).unwrap();
    assert_eq!(first.mode, KnowledgeSyncMode::Full);
    assert!(!first.with_bodies);
    assert_eq!(first.queries.len(), 1);
    let marked = state(Some("2026-04-10 10:00:00"), Some("kb-1"));
    let next = plan_sync(false, false, Some("7d"), &marked, at(1500), None).unwrap();
    assert_eq!(next.mode, KnowledgeSyncMode::Incremental);
    assert!(next.with_bodies);
    assert_eq!(next.queries.len(), 2);
    assert!(next.queries[1].conditions.iter().any(|c| {
        c.field == "sys_updated_on"
            && c.operator == Operator::GreaterThan
            && c.value == "2026-04-10 10:00:00"
    }));
    let stale = plan_sync(false, false, Some("1s"), &marked, at(1500), None).unwrap();
    assert_eq!(stale.mode, KnowledgeSyncMode::Full);
    assert!(plan_sync(true, false, None, &marked, at(1500), Some("bad")).is_err());
    assert_eq!(last_synced(&marked, at(9)), at(1000));
    let never = KbSyncState { last_full_at: None, last_incr_at: None, ..state(None, None) };
    assert_eq!(last_synced(&never, at(9)), at(9));
}

#[test]
fn empty_bases_lose_their_page() {
    assert_eq!(base_page_fate("IT", "knowledge/kb_1", &Vec::new()), PageFate::Drop);
    let rows = vec![KnowledgeIndexRow {
        number: s("KB1"),
        title: s("One"),
        category_sys_id: s("c"),
        category_name: s("Accounts"),
        file_path: s("knowledge/kb_1/KB1.md"),
        sn_tags: Vec::new(),
        auto_tags: Vec::new(),
        user_tags: Vec::new(),
    }];
    match base_page_fate("IT", "knowledge/kb_1", &rows) {
        PageFate::Write(page) => assert!(page.contains("- [`KB1`](KB1.md) **One**\n")),
        PageFate::Drop => panic!("the base has an article"),
    }
}

fn service() -> KnowledgeService {
    let tag = |name: &str, n: usize| TagRow { tag: s(name), article_count: n };
    KnowledgeService {
        bases: vec![KnowledgeBaseRow {
            knowledge_base_sys_id: s("b1"),
            knowledge_base_name: s("IT"),
            article_count: 3,
        }],
        categories: vec![
            KnowledgeCategoryRow {
                category_sys_id: s("c1"),
                knowledge_base_sys_id: s("b1"),
                category_name: s("Accounts"),
                article_count: 2,
            },
            KnowledgeCategoryRow {
                category_sys_id: s("c2"),
                knowledge_base_sys_id: s("b2"),
                category_name: s("Other"),
                article_count: 1,
            },
        ],
        sn_tags: vec![tag("vpn", 2)],
        auto_tags: vec![tag("vpn", 1)],
        user_tags: vec![tag("mine", 1)],
        all_tags: vec![tag("vpn", 3), tag("mine", 1)],
    }
}

#[test]
fn bases_and_categories_are_listed() {
    let bases = service().list_knowledge_bases();
    assert_eq!(bases.len(), 1);
    assert_eq!(bases[0].display_name, "IT");
    let categories = service().list_categories("b1");
    assert_eq!(categories.len(), 1);
    assert_eq!(categories[0].display_name, "Accounts");
    let status = service().knowledge_status(3, 2, state(Some("t"), Some("x")));
    assert_eq!(status.knowledge_base_count, 1);
    assert_eq!(status.category_count, 1);
    assert!(!status.lock_held);
}

#[test]
fn tags_are_told_with_their_layers() {
    let all = service().list_knowledge_tags(None, 1).unwrap();
    assert_eq!(all[0].tag, "vpn");
    assert_eq!(all[0].count, 3);
    assert_eq!(all[0].layers, vec![KnowledgeTagLayer::Sn, KnowledgeTagLayer::Auto]);
    let often = service().list_knowledge_tags(None, 2).unwrap();
    assert_eq!(often.len(), 1);
    let mine = service().list_knowledge_tags(Some(KnowledgeTagLayer::User), 1).unwrap();
    assert_eq!(mine.len(), 1);
    assert_eq!(mine[0].tag, "mine");
}

#[test]
fn articles_without_a_body_are_fetched() {
    let now = at(100);
    assert_eq!(
        plan_article_read(CacheMode::ReadThrough, Some(60), Some((true, at(90))), now),
        ArticleRead::Cached
    );
    assert_eq!(
        plan_article_read(CacheMode::ReadThrough, Some(60), Some((false, at(90))), now),
        ArticleRead::Live { persist: true }
    );
    assert_eq!(
        plan_article_read(CacheMode::CacheOnly, None, Some((false, at(90))), now),
        ArticleRead::Missed
    );
    assert_eq!(
        plan_article_read(CacheMode::Live, None, Some((true, at(90))), now),
        ArticleRead::Live { persist: false }
    );
    assert!(needs_ingest(Some(1), Some(2)));
    assert!(!needs_ingest(Some(2), Some(2)));
    assert!(!needs_ingest(Some(2), None));
    assert_eq!(
        union_of(&vec![s("b"), s("a")], &vec![s("a")]),
        vec![s("a"), s("b")]
    );
    let r = |id: &str| ArticleRow { sys_id: s(id), number: s(id) };
    assert_eq!(distinct_rows(vec![r("a"), r("b"), r("a")]), vec![r("a"), r("b")]);
}

#[test]
fn queues_are_answered_for_the_risk_that_was_asked() {
    let incident = |id: &str, priority: &str| Row {
        table: s("incident"),
        sys_id: s(id),
        cells: vec![Cell {
            name: s("priority"),
            raw: Some(s(priority)),
            display: None,
            other: None,
        }],
    };
    let rows = vec![incident("a", "2"), incident("b", "1"), incident("a", "2"), incident("c", "3")];
    let standings = vec![
        QueueStanding { sys_id: s("a"), bucket: IncidentSlaBucket::Breached },
        QueueStanding { sys_id: s("b"), bucket: IncidentSlaBucket::Breached },
    ];
    let items = queue_items(&rows, &vec![Some(s("Casey")), None, None, None], &standings);
    assert_eq!(items[0].bucket, IncidentSlaBucket::Breached);
    assert_eq!(items[0].assignee, "Casey");
    assert_eq!(items[2].bucket, IncidentSlaBucket::Unavailable);
    assert_eq!(items[3].bucket, IncidentSlaBucket::Unavailable);
    let (page, counts) = queue_answer(
        items,
        &QueueRequest {
            risk: IncidentQueueSlaRisk::Breached,
            sort_by: IncidentQueueSortBy::Priority,
            direction: IncidentQueueSortDirection::Asc,
            stale_before: s("2026-01-01 00:00:00"),
            offset: 0,
            limit: 1,
            scan_complete: true,
        },
    );
    assert_eq!(page.items.len(), 1);
    assert_eq!(page.items[0].sys_id, "b");
    assert_eq!(page.next_offset, Some(1));
    assert_eq!(counts.unassigned, 1);
}
