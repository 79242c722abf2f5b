use snow_core::article::{
    build_knowledge_article, list_knowledge_articles, matches_semantic_reference_filter,
    normalize_knowledge_article, ArticleReferences, KnowledgeArticle, KnownArticle,
};
use snow_core::knowledge_refresh::{
    changed_articles, llm_tag_endpoint, refresh_plan, refresh_term_stats, render_llm_tag_prompt,
    wants_llm_tags, LlmTagConfig, RefreshPlan, TermChange,
};
use snow_core::knowledge_sync::KnowledgeSyncMode;
use snow_core::row::{Cell, Row};
use snow_core::tables::ResourceType;
use snow_core::tags::{
    derive_servicenow_tags, merged_top_tags, normalize_tag_layer, parse_llm_tag_response,
    read_llm_tags, KnowledgeTagLayer, LlmTagReply, TagValue,
};
use snow_core::terms::{
    auto_tag_candidates, decrement_term_stats, derive_auto_tags_with_stats, increment_term_stats,
    next_auto_tags, same_tags, strip_html, term_stats_from_entries, tokenize_article,
    kept_term_stats, unique_terms_for_article, ArticleTerms, ScoredTerm, TermCount, TermStats,
};
use snow_core::types::{CacheSource, Reference, SnowRecord};

fn s(text: &str) -> String {
    text.to_string()
}

fn list(items: &[&str]) -> Vec<String> {
    items.iter().map(|t| t.to_string()).collect()
}

fn reference(sys_id: &str, table: &str, name: &str) -> Reference {
    Reference { sys_id: s(sys_id), table: s(table), display_name: s(name) }
}

fn refs() -> ArticleReferences {
    ArticleReferences {
        knowledge_base: reference("base-1", "kb_knowledge_base", "IT"),
        category: reference("cat-1", "kb_category", "Accounts"),
        author: None,
    }
}

fn article(sys_id: &str, number: &str, title: &str, summary: &str, body: &str) -> KnowledgeArticle {
    normalize_knowledge_article(
        KnowledgeArticle {
            record: SnowRecord {
                sys_id: s(sys_id),
                number: s(number),
                table: s("kb_knowledge"),
                resource_type: ResourceType::Knowledge,
                state: s("published"),
                short_description: s(title),
                description: s(summary),
                fields: Vec::new(),
                work_notes: Vec::new(),
                comments: Vec::new(),
                parent: None,
                children: Vec::new(),
                references: Vec::new(),
                synced_at: 0,
                source: CacheSource::Api,
            },
            knowledge_base: reference("base-1", "kb_knowledge_base", "IT"),
            category: reference("cat-1", "kb_category", "Accounts"),
            article_type: s("text"),
            content: s(body),
            sn_tags: list(&["runbook"]),
            auto_tags: Vec::new(),
            user_tags: Vec::new(),
            body_cached: true,
            published_at: None,
            author: None,
            valid_to: None,
        },
        &refs(),
    )
}

fn row(cells: &[(&str, &str)]) -> Row {
    Row {
        table: s("kb_knowledge"),
        sys_id: s("kb-1"),
        cells: cells
            .iter()
            .map(|(name, raw)| Cell { name: s(name), raw: Some(s(raw)), display: None, other: None })
            .collect(),
    }
}

fn no_value() -> TagValue {
    TagValue { array: None, under_key: None }
}

fn some(items: &[&str]) -> Option<Vec<Option<String>>> {
    Some(items.iter().map(|t| Some(t.to_string())).collect())
}

#[test]
fn derives_servicenow_tags_from_multiple_fields() {
    let record = row(&[
        ("sys_id", "kb-1"),
        ("number", "KB001"),
        ("keywords", "Password Reset, SSO"),
        ("meta", "[\"runbook\", \"tier-1\"]"),
        ("sys_tags", "reset\naccount"),
    ]);
    assert_eq!(
        derive_servicenow_tags(&record),
        list(&["password reset", "sso", "runbook", "tier-1", "reset", "account"])
    );
}

#[test]
fn text_that_is_no_json_list_is_cut_at_commas() {
    let record = row(&[("meta", "[\"a, b")]);
    assert_eq!(derive_servicenow_tags(&record), list(&["[\"a", "b"]));
}

#[test]
fn corpus_tags_prefer_distinctive_terms() {
    let articles = vec![
        article(
            "a1",
            "KB001",
            "Reset VPN credentials",
            "VPN password reset",
            "Use the vpn portal to rotate the vpn token and reconnect.",
        ),
        article(
            "a2",
            "KB002",
            "Onboard a laptop",
            "Laptop setup guide",
            "Provision the laptop, install mdm, and complete workstation onboarding.",
        ),
    ];
    let entries: Vec<ArticleTerms> = articles
        .iter()
        .map(|a| ArticleTerms {
            sys_id: a.record.sys_id.clone(),
            terms: unique_terms_for_article(a),
        })
        .collect();
    let stats = term_stats_from_entries(&entries);
    let derived: Vec<Vec<String>> = articles
        .iter()
        .map(|a| {
            let scored: Vec<ScoredTerm> = auto_tag_candidates(a, &stats)
                .into_iter()
                .map(|c| {
                    let idf = ((1.0 + articles.len() as f64) / (1.0 + c.articles as f64)).ln() + 1.0;
                    let score = c.count as f64 * idf;
                    ScoredTerm { term: c.term, count: c.count, score: score.to_bits() as i64 }
                })
                .collect();
            derive_auto_tags_with_stats(scored, articles.len(), 5)
        })
        .collect();
    assert!(derived[0].contains(&s("vpn")));
    assert!(derived[1].iter().any(|tag| tag == "laptop" || tag == "workstation"));
}

#[test]
fn parses_llm_tag_payloads() {
    let parsed = parse_llm_tag_response(LlmTagReply {
        response: Some(s("[\"vpn\", \"runbook\", \"macos\"]")),
        text: None,
        value: no_value(),
    })
    .expect("parsed");
    assert_eq!(parsed.tags, vec!["vpn", "runbook", "macos"]);

    let parsed = parse_llm_tag_response(LlmTagReply {
        response: None,
        text: None,
        value: TagValue { array: None, under_key: some(&["password", "reset"]) },
    })
    .expect("parsed");
    assert_eq!(parsed.tags, vec!["password", "reset"]);
}

#[test]
fn nested_tag_payloads_are_read() {
    let parsed = parse_llm_tag_response(LlmTagReply {
        response: Some(s("{\"tags\": [\"Vpn\", 3, \"vpn\"]}")),
        text: None,
        value: no_value(),
    })
    .expect("parsed");
    assert_eq!(parsed.tags, vec!["vpn"]);
}

#[test]
fn unreadable_tag_payloads_are_refused() {
    let bad_json = LlmTagReply { response: Some(s("not json")), text: None, value: no_value() };
    assert!(parse_llm_tag_response(bad_json).is_err());
    let no_tags = LlmTagReply { response: None, text: None, value: no_value() };
    assert!(parse_llm_tag_response(no_tags).is_err());
    let unread = LlmTagReply { response: None, text: Some(s("x")), value: no_value() };
    assert!(read_llm_tags(unread, None).is_err());
}

#[test]
fn tag_layers_are_clean_and_stay_clean() {
    let once = normalize_tag_layer(&list(&[" vpn ", "vpn", " ", "Reset"]));
    assert_eq!(once, list(&["vpn", "Reset"]));
    assert_eq!(normalize_tag_layer(&once), once);
    assert_eq!(
        merged_top_tags(&list(&["a", "b"]), &list(&["b", "c"]), &list(&["u"]), 3),
        list(&["a", "b", "c"])
    );
    assert_eq!(KnowledgeTagLayer::Sn.as_store_str(), "sn");
    assert_eq!(KnowledgeTagLayer::Auto.as_store_str(), "auto");
    assert_eq!(KnowledgeTagLayer::User.as_store_str(), "user");
}

#[test]
fn markup_becomes_space() {
    assert_eq!(strip_html("<p>Use <b>VPN</b></p>"), " Use  VPN  ");
    assert_eq!(strip_html("plain"), "plain");
}

#[test]
fn short_words_and_stopwords_are_no_terms() {
    let a = article("a1", "KB001", "The VPN of it", "", "<p>ab vpn 2024</p>");
    let terms = tokenize_article(&a);
    assert!(terms.contains(&s("vpn")));
    assert!(!terms.contains(&s("the")));
    assert!(!terms.contains(&s("ab")));
    let mut once = unique_terms_for_article(&a);
    let n = once.len();
    once.sort();
    once.dedup();
    assert_eq!(once.len(), n);
}

#[test]
fn decrementing_takes_back_an_increment() {
    let mut stats = TermStats::new();
    increment_term_stats(&mut stats, &list(&["vpn", "reset"]));
    increment_term_stats(&mut stats, &list(&["vpn"]));
    assert_eq!(stats.get("vpn"), 2);
    assert_eq!(stats.get("reset"), 1);
    assert_eq!(stats.get("laptop"), 0);
    decrement_term_stats(&mut stats, &list(&["vpn"]));
    assert_eq!(stats.get("vpn"), 1);
    decrement_term_stats(&mut stats, &list(&["vpn", "vpn"]));
    assert_eq!(stats.get("vpn"), 0);
}

#[test]
fn incremental_term_counts_equal_a_recount() {
    let old = vec![
        ArticleTerms { sys_id: s("a1"), terms: list(&["vpn", "reset"]) },
        ArticleTerms { sys_id: s("a2"), terms: list(&["vpn", "laptop"]) },
        ArticleTerms { sys_id: s("a3"), terms: list(&["mdm"]) },
    ];
    let mut stats = term_stats_from_entries(&old);
    refresh_term_stats(
        &mut stats,
        &vec![ArticleTerms { sys_id: s("a3"), terms: list(&["mdm"]) }],
        &vec![TermChange {
            sys_id: s("a2"),
            old_terms: list(&["vpn", "laptop"]),
            new_terms: list(&["laptop", "dock"]),
        }],
    );
    let recount = term_stats_from_entries(&vec![
        ArticleTerms { sys_id: s("a1"), terms: list(&["vpn", "reset"]) },
        ArticleTerms { sys_id: s("a2"), terms: list(&["laptop", "dock"]) },
    ]);
    for term in ["vpn", "reset", "laptop", "dock", "mdm", "other"] {
        assert_eq!(stats.get(term), recount.get(term), "{}", term);
    }
}

#[test]
fn better_scores_come_first_among_tags() {
    let scored = vec![
        ScoredTerm { term: s("b"), count: 1, score: 5 },
        ScoredTerm { term: s("a"), count: 1, score: 5 },
        ScoredTerm { term: s("c"), count: 1, score: 9 },
    ];
    assert_eq!(derive_auto_tags_with_stats(scored.clone(), 4, 2), list(&["c", "a"]));
    assert_eq!(derive_auto_tags_with_stats(scored, 0, 2), Vec::<String>::new());
}

#[test]
fn proposed_tags_replace_derived_ones() {
    assert!(same_tags(&list(&["a"]), &list(&["a"])));
    assert!(!same_tags(&list(&["a"]), &list(&["a", "b"])));
    assert_eq!(next_auto_tags(list(&["a"]), None), list(&["a"]));
    assert_eq!(next_auto_tags(list(&["a"]), Some(list(&["b"]))), list(&["b"]));
}

#[test]
fn only_articles_with_new_tags_are_written() {
    let a = article("a1", "KB001", "t", "", "");
    let b = article("a2", "KB002", "t", "", "");
    let changed = changed_articles(vec![a, b], vec![Vec::new(), list(&["vpn"])]);
    assert_eq!(changed.len(), 1);
    assert_eq!(changed[0].record.sys_id, "a2");
    assert_eq!(changed[0].auto_tags, list(&["vpn"]));
}

#[test]
fn refreshes_do_no_more_than_needed() {
    assert_eq!(refresh_plan(KnowledgeSyncMode::Incremental, 0, false, false), RefreshPlan::Clear);
    assert_eq!(refresh_plan(KnowledgeSyncMode::Full, 3, false, false), RefreshPlan::Full);
    assert_eq!(refresh_plan(KnowledgeSyncMode::Incremental, 3, true, false), RefreshPlan::Full);
    assert_eq!(
        refresh_plan(KnowledgeSyncMode::Incremental, 3, false, true),
        RefreshPlan::StatsOnly
    );
    assert_eq!(
        refresh_plan(KnowledgeSyncMode::Incremental, 3, false, false),
        RefreshPlan::Incremental
    );
}

#[test]
fn model_tags_are_asked_for_only_with_a_body() {
    let config =
        LlmTagConfig { enabled: true, endpoint: s("http://x"), model: s("m"), timeout_seconds: 10 };
    assert!(wants_llm_tags(&config, "body"));
    assert!(!wants_llm_tags(&config, "  "));
    let off = LlmTagConfig { enabled: false, ..config };
    assert!(!wants_llm_tags(&off, "body"));
    assert_eq!(llm_tag_endpoint("http://x/"), "http://x/api/generate");
    let prompt = render_llm_tag_prompt(&article("a1", "KB001", "Reset VPN", "sum", "Body text"));
    assert!(prompt.contains("Reset VPN"));
    assert!(prompt.contains("Body text"));
}

#[test]
fn cached_bodies_survive_a_fresh_row_without_one() {
    let mut fresh = article("a1", "KB001", "t", "sum", "");
    fresh.body_cached = false;
    let built = build_knowledge_article(
        fresh,
        &refs(),
        KnownArticle::File {
            content: s("old body"),
            auto_tags: list(&["vpn"]),
            user_tags: list(&["mine"]),
            body_cached: true,
        },
        list(&["sn"]),
    );
    assert_eq!(built.content, "old body");
    assert!(built.body_cached);
    assert_eq!(built.auto_tags, list(&["vpn"]));
    assert_eq!(built.user_tags, list(&["mine"]));
    assert_eq!(built.sn_tags, list(&["sn"]));
}

#[test]
fn articles_are_listed_by_base_and_category() {
    let a = article("a1", "KB001", "t", "", "");
    let mut b = article("a2", "KB002", "t", "", "");
    b.category = reference("cat-2", "kb_category", "Other");
    let picked = list_knowledge_articles(
        vec![a.clone(), b.clone()],
        Some("base-1"),
        Some("cat-2"),
        None,
    );
    assert_eq!(picked, vec![b.clone()]);
    let first = list_knowledge_articles(vec![b.clone(), a.clone()], Some("base-1"), None, Some(1));
    assert_eq!(first, vec![a.clone()]);
    let all = list_knowledge_articles(vec![b.clone(), a.clone()], None, None, Some(9));
    assert_eq!(all, vec![a, b]);
    assert!(matches_semantic_reference_filter(None, &reference("x", "t", "IT")));
    assert!(matches_semantic_reference_filter(Some("it"), &reference("x", "t", "IT")));
    assert!(matches_semantic_reference_filter(Some("x"), &reference("x", "t", "IT")));
    assert!(!matches_semantic_reference_filter(Some("hr"), &reference("x", "t", "IT")));
}

#[test]
fn kept_numbers_are_read_whatever_rows_they_stand_in() {
    let row = |term: &str, count: usize| TermCount { term: s(term), count };
    let rows = vec![row("vpn", 3), row("mail", 2), row("vpn", 5), row("mail", 0), row("disk", 0)];
    let stats = kept_term_stats(&rows);
    assert_eq!(stats.get("vpn"), 5);
    assert_eq!(stats.get("mail"), 0);
    assert_eq!(stats.get("disk"), 0);
    assert_eq!(stats.entries.len(), 1);
    let again = kept_term_stats(&stats.entries);
    assert_eq!(again.entries, stats.entries);
}
