//! Search among knowledge articles by meaning. Scores are computed elsewhere;
//! here they are integers that order as the scores do.
use vstd::prelude::*;
use vstd::string::*;

use crate::article::{
    blank, is_blank, matches_semantic_reference_filter, passes, KnowledgeArticle,
};
use crate::listing::{ascending, insert_ascending, lemma_filter_ends, lemma_filter_step};
use crate::order::{sort, sorted, Ranked};
use crate::text::{
    decimal, decimal_text, joined3, lemma_text_order, less_text, list_has, same, text_less,
    text_of, texts, trim, trim_text,
};

verus! {

#[derive(Debug, Clone, Copy, PartialEq, Eq, Structural)]
pub enum KnowledgeSearchMode {
    Lexical,
    Semantic,
    Hybrid,
}

impl Default for KnowledgeSearchMode {
    fn default() -> (r: Self)
        ensures
            r == KnowledgeSearchMode::Hybrid,
    {
        KnowledgeSearchMode::Hybrid
    }
}

#[derive(Debug, Clone, PartialEq, Eq)]
pub struct KnowledgeSemanticSearchFilters {
    pub knowledge_base: Option<String>,
    pub category: Option<String>,
    pub limit: Option<usize>,
    pub mode: KnowledgeSearchMode,
    pub min_score_millis: Option<u32>,
}

/// What of an article an embedding covers.
#[derive(Debug, Clone, Copy, PartialEq, Eq, Structural)]
pub enum KnowledgeEmbeddingCoverage {
    Metadata,
    FullText,
}

#[derive(Debug, Clone, PartialEq, Eq)]
pub struct SemanticConfig {
    pub enabled: bool,
    pub provider: String,
    pub model: String,
    pub endpoint: String,
    pub batch_size: usize,
    pub top_k: usize,
    pub candidate_pool: usize,
    pub min_score_millis: u32,
    pub hybrid_fallback_to_lexical: bool,
}

// --- which provider is asked ---

/// What is wrong with the settings, if anything.
pub open spec fn config_fault(config: SemanticConfig) -> Option<Seq<char>> {
    if !config.enabled {
        Some("semantic KB search is not enabled"@)
    } else if is_blank(config.model@) {
        Some("semantic KB search model is not configured"@)
    } else if trim(config.provider@) != "ollama"@ {
        Some("unsupported semantic embedding provider `"@ + trim(config.provider@) + "`"@)
    } else if is_blank(config.endpoint@) {
        Some("semantic KB search endpoint is not configured"@)
    } else {
        None
    }
}

/// The one provider that there is.
#[derive(Debug, Clone, Copy, PartialEq, Eq, Structural)]
pub enum EmbeddingProviderKind {
    Ollama,
}

pub fn semantic_provider_from_config(config: &SemanticConfig) -> (r: Result<
    EmbeddingProviderKind,
    String,
>)
    ensures
        match r {
            Ok(kind) => config_fault(*config) is None && kind == EmbeddingProviderKind::Ollama,
            Err(e) => config_fault(*config) == Some(e@),
        },
{
    if !config.enabled {
        return Err("semantic KB search is not enabled".to_owned());
    }
    if blank(config.model.as_str()) {
        return Err("semantic KB search model is not configured".to_owned());
    }
    let provider: String = trim_text(config.provider.as_str());
    if !same(provider.as_str(), "ollama") {
        return Err(joined3("unsupported semantic embedding provider `", provider.as_str(), "`"));
    }
    if blank(config.endpoint.as_str()) {
        return Err("semantic KB search endpoint is not configured".to_owned());
    }
    Ok(EmbeddingProviderKind::Ollama)
}

// --- the embeddings that are there, and those that are due ---

/// An embedding of the store, without its numbers.
#[derive(Debug, Clone, PartialEq, Eq)]
pub struct EmbeddingRow {
    pub record_sys_id: String,
    pub model: String,
    pub provider: String,
    pub dimensions: usize,
    pub coverage: KnowledgeEmbeddingCoverage,
    pub content_hash: String,
}

/// What is embedded for an article.
#[derive(Debug, Clone, PartialEq, Eq)]
pub struct EmbeddingInput {
    pub record_sys_id: String,
    pub coverage: KnowledgeEmbeddingCoverage,
    pub content_hash: String,
    pub input: String,
}

/// The embedding of an article; of two the later counts.
pub open spec fn row_for(rows: Seq<EmbeddingRow>, id: Seq<char>) -> Option<EmbeddingRow>
    decreases rows.len(),
{
    if rows.len() == 0 {
        None
    } else if rows.last().record_sys_id@ == id {
        Some(rows.last())
    } else {
        row_for(rows.drop_last(), id)
    }
}

/// Whether an embedding is that of the article as it is now.
pub open spec fn is_current(
    row: EmbeddingRow,
    input: EmbeddingInput,
    model: Seq<char>,
    provider: Seq<char>,
) -> bool {
    row.model@ == model && row.provider@ == provider && row.coverage == input.coverage
        && row.content_hash@ == input.content_hash@
}

fn find_row(rows: &Vec<EmbeddingRow>, id: &str) -> (r: Option<usize>)
    ensures
        match r {
            Some(i) => i < rows@.len() && row_for(rows@, id@) == Some(rows@[i as int]),
            None => row_for(rows@, id@) is None,
        },
{
    let mut n: usize = rows.len();
    assert(rows@.subrange(0, n as int) =~= rows@);
    while n > 0
        invariant
            n <= rows@.len(),
            row_for(rows@, id@) == row_for(rows@.subrange(0, n as int), id@),
        decreases n,
    {
        proof {
            assert(rows@.subrange(0, n as int).drop_last() =~= rows@.subrange(0, n - 1));
            assert(rows@.subrange(0, n as int).last() == rows@[n - 1]);
        }
        if same(rows[n - 1].record_sys_id.as_str(), id) {
            return Some(n - 1);
        }
        n -= 1;
    }
    None
}

fn same_coverage(a: KnowledgeEmbeddingCoverage, b: KnowledgeEmbeddingCoverage) -> (r: bool)
    ensures
        r == (a == b),
{
    match a {
        KnowledgeEmbeddingCoverage::Metadata => match b {
            KnowledgeEmbeddingCoverage::Metadata => true,
            KnowledgeEmbeddingCoverage::FullText => false,
        },
        KnowledgeEmbeddingCoverage::FullText => match b {
            KnowledgeEmbeddingCoverage::Metadata => false,
            KnowledgeEmbeddingCoverage::FullText => true,
        },
    }
}

fn current(row: &EmbeddingRow, input: &EmbeddingInput, model: &str, provider: &str) -> (r: bool)
    ensures
        r == is_current(*row, *input, model@, provider@),
{
    same(row.model.as_str(), model) && same(row.provider.as_str(), provider) && same_coverage(
        row.coverage,
        input.coverage,
    ) && same(row.content_hash.as_str(), input.content_hash.as_str())
}

/// Whether an article has an embedding, and it is no longer current.
pub open spec fn is_stale(
    rows: Seq<EmbeddingRow>,
    input: EmbeddingInput,
    model: Seq<char>,
    provider: Seq<char>,
) -> bool {
    match row_for(rows, input.record_sys_id@) {
        Some(row) => !is_current(row, input, model, provider),
        None => false,
    }
}

/// Whether an article is to be embedded: all are where that is asked for, else
/// those without a current embedding.
pub open spec fn is_due(
    full: bool,
    rows: Seq<EmbeddingRow>,
    model: Seq<char>,
    provider: Seq<char>,
) -> spec_fn(EmbeddingInput) -> bool {
    |input: EmbeddingInput|
        full || match row_for(rows, input.record_sys_id@) {
            Some(row) => !is_current(row, input, model, provider),
            None => true,
        }
}

/// The articles that are to be embedded, in their order.
pub fn pending_embeddings(
    full: bool,
    inputs: Vec<EmbeddingInput>,
    rows: &Vec<EmbeddingRow>,
    model: &str,
    provider: &str,
) -> (r: Vec<EmbeddingInput>)
    ensures
        r@ == inputs@.filter(is_due(full, rows@, model@, provider@)),
{
    let ghost all = inputs@;
    let ghost keep = is_due(full, rows@, model@, provider@);
    let mut rest: Vec<EmbeddingInput> = inputs;
    let mut out: Vec<EmbeddingInput> = Vec::new();
    let ghost mut done: int = 0;
    proof {
        lemma_filter_ends(all, keep);
    }
    while rest.len() > 0
        invariant
            0 <= done <= all.len(),
            keep == is_due(full, rows@, model@, provider@),
            rest@ == all.subrange(done, all.len() as int),
            out@ == all.subrange(0, done).filter(keep),
        decreases rest@.len(),
    {
        let input: EmbeddingInput = rest.remove(0);
        proof {
            assert(input == all[done]);
            lemma_filter_step(all, keep, done);
            done = done + 1;
            assert(rest@ =~= all.subrange(done, all.len() as int));
        }
        let due: bool = full || match find_row(rows, input.record_sys_id.as_str()) {
            Some(i) => !current(&rows[i], &input, model, provider),
            None => true,
        };
        if due {
            out.push(input);
        }
    }
    assert(all.subrange(0, done) =~= all);
    out
}

/// The rows once the embedding of an article has been stored.
pub open spec fn with_row(rows: Seq<EmbeddingRow>, row: EmbeddingRow) -> Seq<EmbeddingRow> {
    rows.push(row)
}

/// The row that is stored for an article.
pub fn stored_row(input: &EmbeddingInput, model: &str, provider: &str, dimensions: usize) -> (r:
    EmbeddingRow)
    ensures
        r.record_sys_id == input.record_sys_id,
        r.dimensions == dimensions,
        is_current(r, *input, model@, provider@),
{
    EmbeddingRow {
        record_sys_id: input.record_sys_id.clone(),
        model: model.to_owned(),
        provider: provider.to_owned(),
        dimensions,
        coverage: input.coverage,
        content_hash: input.content_hash.clone(),
    }
}

/// Once the embedding of an article has been stored, the article is neither due
/// nor stale, and nothing changes for other articles.
pub proof fn stored_embeddings_are_current(
    rows: Seq<EmbeddingRow>,
    row: EmbeddingRow,
    input: EmbeddingInput,
    other: EmbeddingInput,
    model: Seq<char>,
    provider: Seq<char>,
)
    requires
        row.record_sys_id@ == input.record_sys_id@,
        is_current(row, input, model, provider),
    ensures
        !is_due(false, with_row(rows, row), model, provider)(input),
        !is_stale(with_row(rows, row), input, model, provider),
        other.record_sys_id@ != input.record_sys_id@ ==> is_due(
            false,
            with_row(rows, row),
            model,
            provider,
        )(other) == is_due(false, rows, model, provider)(other),
{
    assert(rows.push(row).drop_last() =~= rows);
}

/// Where the next batch ends.
pub open spec fn batch_end(from: int, total: int, size: int) -> int {
    let n: int = if size < 1 {
        1
    } else {
        size
    };
    if total - from <= n {
        total
    } else {
        from + n
    }
}

pub fn next_batch_end(from: usize, total: usize, size: usize) -> (r: usize)
    requires
        from <= total,
    ensures
        r == batch_end(from as int, total as int, size as int),
        from < total ==> from < r <= total,
{
    let n: usize = if size < 1 {
        1
    } else {
        size
    };
    if total - from <= n {
        total
    } else {
        from + n
    }
}

pub open spec fn vector_count_fault(vectors: nat, inputs: nat) -> Seq<char> {
    "semantic embedding provider returned "@ + decimal(vectors) + " vectors for "@ + decimal(inputs)
        + " inputs"@
}

/// Checks that there is one vector for each input.
pub fn check_vector_count(vectors: usize, inputs: usize) -> (r: Result<(), String>)
    ensures
        match r {
            Ok(_) => vectors == inputs,
            Err(e) => vectors != inputs && e@ == vector_count_fault(vectors as nat, inputs as nat),
        },
{
    if vectors == inputs {
        return Ok(());
    }
    let mut e: String = "semantic embedding provider returned ".to_owned();
    e.append(decimal_text(vectors as u64).as_str());
    e.append(" vectors for ");
    e.append(decimal_text(inputs as u64).as_str());
    e.append(" inputs");
    Err(e)
}

// --- how the index stands ---

/// What the store notes of the last rebuild.
#[derive(Debug, Clone, PartialEq, Eq)]
pub struct SemanticMeta {
    pub last_rebuild_at: Option<i64>,
    pub last_error: Option<String>,
}

/// What is noted of a rebuild: when it ended, or why it failed.
pub fn noted_rebuild(rebuilt: Result<i64, String>) -> (r: SemanticMeta)
    ensures
        r == (match rebuilt {
            Ok(at) => SemanticMeta { last_rebuild_at: Some(at), last_error: None },
            Err(e) => SemanticMeta { last_rebuild_at: None, last_error: Some(e) },
        }),
{
    match rebuilt {
        Ok(at) => SemanticMeta { last_rebuild_at: Some(at), last_error: None },
        Err(e) => SemanticMeta { last_rebuild_at: None, last_error: Some(e) },
    }
}

#[derive(Debug, Clone, PartialEq, Eq)]
pub struct KnowledgeSemanticStatus {
    pub enabled: bool,
    pub provider: String,
    pub model: String,
    pub dimensions: usize,
    pub active_kb_articles: usize,
    pub metadata_embeddings: usize,
    pub full_text_embeddings: usize,
    pub stale_rows: usize,
    pub orphan_rows: usize,
    pub last_rebuild_at: Option<i64>,
    pub last_error: Option<String>,
}

/// How many articles have a stale embedding.
pub open spec fn stale_count(
    rows: Seq<EmbeddingRow>,
    inputs: Seq<EmbeddingInput>,
    model: Seq<char>,
    provider: Seq<char>,
) -> nat
    decreases inputs.len(),
{
    if inputs.len() == 0 {
        0
    } else {
        stale_count(rows, inputs.drop_last(), model, provider) + if is_stale(
            rows,
            inputs.last(),
            model,
            provider,
        ) {
            1nat
        } else {
            0nat
        }
    }
}

/// How many embeddings of a model cover as much.
pub open spec fn coverage_count(
    rows: Seq<EmbeddingRow>,
    model: Seq<char>,
    coverage: KnowledgeEmbeddingCoverage,
) -> nat
    decreases rows.len(),
{
    if rows.len() == 0 {
        0
    } else {
        coverage_count(rows.drop_last(), model, coverage) + if rows.last().model@ == model
            && rows.last().coverage == coverage {
            1nat
        } else {
            0nat
        }
    }
}

/// How many numbers an embedding of the model has: what the first one with any
/// says.
pub open spec fn model_dimensions(rows: Seq<EmbeddingRow>, model: Seq<char>) -> usize
    decreases rows.len(),
{
    if rows.len() == 0 {
        0
    } else {
        let before = model_dimensions(rows.drop_last(), model);
        if before == 0 && rows.last().model@ == model {
            rows.last().dimensions
        } else {
            before
        }
    }
}

fn count_coverage(
    rows: &Vec<EmbeddingRow>,
    model: &str,
    coverage: KnowledgeEmbeddingCoverage,
) -> (r: usize)
    ensures
        r == coverage_count(rows@, model@, coverage),
{
    let mut n: usize = 0;
    let mut i: usize = 0;
    assert(rows@.subrange(0, 0) =~= Seq::<EmbeddingRow>::empty());
    while i < rows.len()
        invariant
            i <= rows@.len(),
            n <= i,
            n == coverage_count(rows@.subrange(0, i as int), model@, coverage),
        decreases rows@.len() - i,
    {
        proof {
            let longer = rows@.subrange(0, i + 1);
            assert(longer.drop_last() =~= rows@.subrange(0, i as int));
            assert(longer.last() == rows@[i as int]);
        }
        if same(rows[i].model.as_str(), model) && same_coverage(rows[i].coverage, coverage) {
            n += 1;
        }
        i += 1;
    }
    assert(rows@.subrange(0, i as int) =~= rows@);
    n
}

/// How the index stands, given the rows of the store and what the articles are
/// now.
pub fn knowledge_semantic_status(
    config: &SemanticConfig,
    rows: &Vec<EmbeddingRow>,
    inputs: &Vec<EmbeddingInput>,
    orphan_rows: usize,
    meta: SemanticMeta,
) -> (r: KnowledgeSemanticStatus)
    ensures
        r.enabled == config.enabled,
        r.provider == config.provider,
        r.model == config.model,
        r.dimensions == model_dimensions(rows@, config.model@),
        r.active_kb_articles == inputs@.len(),
        r.metadata_embeddings == coverage_count(
            rows@,
            config.model@,
            KnowledgeEmbeddingCoverage::Metadata,
        ),
        r.full_text_embeddings == coverage_count(
            rows@,
            config.model@,
            KnowledgeEmbeddingCoverage::FullText,
        ),
        r.stale_rows == stale_count(rows@, inputs@, config.model@, config.provider@),
        r.orphan_rows == orphan_rows,
        r.last_rebuild_at == meta.last_rebuild_at,
        r.last_error == meta.last_error,
{
    let mut dimensions: usize = 0;
    let mut i: usize = 0;
    assert(rows@.subrange(0, 0) =~= Seq::<EmbeddingRow>::empty());
    while i < rows.len()
        invariant
            i <= rows@.len(),
            dimensions == model_dimensions(rows@.subrange(0, i as int), config.model@),
        decreases rows@.len() - i,
    {
        proof {
            let longer = rows@.subrange(0, i + 1);
            assert(longer.drop_last() =~= rows@.subrange(0, i as int));
            assert(longer.last() == rows@[i as int]);
        }
        if same(rows[i].model.as_str(), config.model.as_str()) && dimensions == 0 {
            dimensions = rows[i].dimensions;
        }
        i += 1;
    }
    assert(rows@.subrange(0, i as int) =~= rows@);
    let mut stale: usize = 0;
    let mut k: usize = 0;
    assert(inputs@.subrange(0, 0) =~= Seq::<EmbeddingInput>::empty());
    while k < inputs.len()
        invariant
            k <= inputs@.len(),
            stale <= k,
            stale == stale_count(
                rows@,
                inputs@.subrange(0, k as int),
                config.model@,
                config.provider@,
            ),
        decreases inputs@.len() - k,
    {
        proof {
            let longer = inputs@.subrange(0, k + 1);
            assert(longer.drop_last() =~= inputs@.subrange(0, k as int));
            assert(longer.last() == inputs@[k as int]);
        }
        if let Some(at) = find_row(rows, inputs[k].record_sys_id.as_str()) {
            if !current(
                &rows[at],
                &inputs[k],
                config.model.as_str(),
                config.provider.as_str(),
            ) {
                stale += 1;
            }
        }
        k += 1;
    }
    assert(inputs@.subrange(0, k as int) =~= inputs@);
    KnowledgeSemanticStatus {
        enabled: config.enabled,
        provider: config.provider.clone(),
        model: config.model.clone(),
        dimensions,
        active_kb_articles: inputs.len(),
        metadata_embeddings: count_coverage(
            rows,
            config.model.as_str(),
            KnowledgeEmbeddingCoverage::Metadata,
        ),
        full_text_embeddings: count_coverage(
            rows,
            config.model.as_str(),
            KnowledgeEmbeddingCoverage::FullText,
        ),
        stale_rows: stale,
        orphan_rows,
        last_rebuild_at: meta.last_rebuild_at,
        last_error: meta.last_error,
    }
}

#[derive(Debug, Clone, PartialEq, Eq)]
pub struct SemanticIndexSummary {
    pub full: bool,
    pub indexed_rows: usize,
    pub metadata_embeddings: usize,
    pub full_text_embeddings: usize,
    pub stale_rows: usize,
    pub orphan_rows: usize,
    pub last_rebuild_at: Option<i64>,
    pub last_error: Option<String>,
}

/// What is reported of a rebuild.
pub fn semantic_index_summary(
    full: bool,
    indexed_rows: usize,
    status: KnowledgeSemanticStatus,
) -> (r: SemanticIndexSummary)
    ensures
        r == (SemanticIndexSummary {
            full,
            indexed_rows,
            metadata_embeddings: status.metadata_embeddings,
            full_text_embeddings: status.full_text_embeddings,
            stale_rows: status.stale_rows,
            orphan_rows: status.orphan_rows,
            last_rebuild_at: status.last_rebuild_at,
            last_error: status.last_error,
        }),
{
    SemanticIndexSummary {
        full,
        indexed_rows,
        metadata_embeddings: status.metadata_embeddings,
        full_text_embeddings: status.full_text_embeddings,
        stale_rows: status.stale_rows,
        orphan_rows: status.orphan_rows,
        last_rebuild_at: status.last_rebuild_at,
        last_error: status.last_error,
    }
}

// --- how a search goes ---

/// How a search is answered.
#[derive(Debug, Clone, PartialEq, Eq)]
pub enum SearchRoute {
    /// By words, and reported as found in the given mode.
    Lexical(KnowledgeSearchMode),
    /// With nothing.
    Nothing,
    /// With the one article of that number.
    Exact(String),
    /// By meaning.
    Semantic,
    /// Both by words and by meaning.
    Hybrid,
    /// With an error.
    Refused(String),
}

/// Which way a search goes. `nothing_left` says that no text is left to search
/// for, `number` is the article that the text names, and `provider` is what came
/// of looking for a provider.
pub fn route_search(
    mode: KnowledgeSearchMode,
    nothing_left: bool,
    number: Option<String>,
    provider: Result<EmbeddingProviderKind, String>,
    fallback: bool,
) -> (r: SearchRoute)
    ensures
        match mode {
            KnowledgeSearchMode::Lexical => r == SearchRoute::Lexical(KnowledgeSearchMode::Lexical),
            _ => if nothing_left {
                r == SearchRoute::Nothing
            } else if let Some(n) = number {
                r == SearchRoute::Exact(n)
            } else {
                match provider {
                    Ok(_) => r == (if mode == KnowledgeSearchMode::Semantic {
                        SearchRoute::Semantic
                    } else {
                        SearchRoute::Hybrid
                    }),
                    Err(e) => if mode == KnowledgeSearchMode::Hybrid && fallback {
                        r == SearchRoute::Lexical(KnowledgeSearchMode::Hybrid)
                    } else {
                        r == SearchRoute::Refused(e)
                    },
                }
            },
        },
{
    let hybrid: bool = match mode {
        KnowledgeSearchMode::Lexical => {
            return SearchRoute::Lexical(KnowledgeSearchMode::Lexical);
        },
        KnowledgeSearchMode::Semantic => false,
        KnowledgeSearchMode::Hybrid => true,
    };
    if nothing_left {
        return SearchRoute::Nothing;
    }
    if let Some(n) = number {
        return SearchRoute::Exact(n);
    }
    match provider {
        Ok(_) => if hybrid {
            SearchRoute::Hybrid
        } else {
            SearchRoute::Semantic
        },
        Err(e) => if hybrid && fallback {
            SearchRoute::Lexical(KnowledgeSearchMode::Hybrid)
        } else {
            SearchRoute::Refused(e)
        },
    }
}

/// What becomes of a search by words and by meaning that failed.
pub fn route_after_failure(error: String, fallback: bool) -> (r: SearchRoute)
    ensures
        r == (if fallback {
            SearchRoute::Lexical(KnowledgeSearchMode::Hybrid)
        } else {
            SearchRoute::Refused(error)
        }),
{
    if fallback {
        SearchRoute::Lexical(KnowledgeSearchMode::Hybrid)
    } else {
        SearchRoute::Refused(error)
    }
}

/// Whether an article passes the filters of a search.
pub open spec fn passes_filters(
    article: KnowledgeArticle,
    filters: KnowledgeSemanticSearchFilters,
) -> bool {
    passes(text_of(filters.knowledge_base), article.knowledge_base) && passes(
        text_of(filters.category),
        article.category,
    )
}

pub fn knowledge_article_matches_semantic_filters(
    article: &KnowledgeArticle,
    filters: &KnowledgeSemanticSearchFilters,
) -> (r: bool)
    ensures
        r == passes_filters(*article, *filters),
{
    let base: Option<&str> = match &filters.knowledge_base {
        Some(f) => Some(f.as_str()),
        None => None,
    };
    let category: Option<&str> = match &filters.category {
        Some(f) => Some(f.as_str()),
        None => None,
    };
    matches_semantic_reference_filter(base, &article.knowledge_base)
        && matches_semantic_reference_filter(category, &article.category)
}

/// What the text of an article covers, as long as no embedding says otherwise.
pub open spec fn text_coverage(body_cached: bool) -> KnowledgeEmbeddingCoverage {
    if body_cached {
        KnowledgeEmbeddingCoverage::FullText
    } else {
        KnowledgeEmbeddingCoverage::Metadata
    }
}

pub fn coverage_of_text(body_cached: bool) -> (r: KnowledgeEmbeddingCoverage)
    ensures
        r == text_coverage(body_cached),
{
    if body_cached {
        KnowledgeEmbeddingCoverage::FullText
    } else {
        KnowledgeEmbeddingCoverage::Metadata
    }
}

/// What covers the one article that a search names: nothing where the article is
/// filtered out, else what its embedding of the model says, else its text.
pub fn exact_hit_coverage(
    article: &KnowledgeArticle,
    filters: &KnowledgeSemanticSearchFilters,
    embedding: Option<&EmbeddingRow>,
    model: &str,
) -> (r: Option<KnowledgeEmbeddingCoverage>)
    ensures
        r == (if !passes_filters(*article, *filters) {
            None::<KnowledgeEmbeddingCoverage>
        } else {
            match embedding {
                Some(row) => if row.model@ == model@ {
                    Some(row.coverage)
                } else {
                    Some(text_coverage(article.body_cached))
                },
                None => Some(text_coverage(article.body_cached)),
            }
        }),
{
    if !knowledge_article_matches_semantic_filters(article, filters) {
        return None;
    }
    match embedding {
        Some(row) => if same(row.model.as_str(), model) {
            Some(row.coverage)
        } else {
            Some(coverage_of_text(article.body_cached))
        },
        None => Some(coverage_of_text(article.body_cached)),
    }
}

// --- ranking by meaning ---

/// An article with its score.
#[derive(Debug, Clone, PartialEq, Eq)]
pub struct ScoredArticle {
    pub record_sys_id: String,
    pub number: String,
    pub score: i64,
    pub coverage: KnowledgeEmbeddingCoverage,
}

/// Higher scores come first, then the earlier number.
impl Ranked for ScoredArticle {
    open spec fn before(self, other: Self) -> bool {
        self.score > other.score || (self.score == other.score && text_less(
            self.number@,
            other.number@,
        ))
    }

    proof fn rank_laws(a: Self, b: Self, c: Self) {
        lemma_text_order(a.number@, b.number@, c.number@);
    }

    fn precedes(&self, other: &Self) -> (r: bool) {
        self.score > other.score || (self.score == other.score && less_text(
            self.number.as_str(),
            other.number.as_str(),
        ))
    }
}

pub open spec fn scores_at_least(least: i64) -> spec_fn(ScoredArticle) -> bool {
    |a: ScoredArticle| a.score >= least
}

/// The first `n` items.
pub open spec fn take<T>(items: Seq<T>, n: int) -> Seq<T> {
    if items.len() <= n {
        items
    } else {
        items.subrange(0, n)
    }
}

/// The articles that a search by meaning finds: those that score well enough, in
/// order, at most as many as are looked at and as are wanted.
pub open spec fn semantic_hits(scored: Seq<ScoredArticle>, least: i64, pool: int, limit: int) -> Seq<
    ScoredArticle,
> {
    take(take(sorted(scored).filter(scores_at_least(least)), pool), limit)
}

pub fn rank_semantic_hits(
    scored: Vec<ScoredArticle>,
    least: i64,
    candidate_pool: usize,
    limit: usize,
) -> (r: Vec<ScoredArticle>)
    ensures
        r@ == semantic_hits(scored@, least, candidate_pool as int, limit as int),
{
    let mut rest: Vec<ScoredArticle> = sort(scored);
    let ghost all = rest@;
    let ghost keep = scores_at_least(least);
    let mut out: Vec<ScoredArticle> = Vec::new();
    let ghost mut done: int = 0;
    proof {
        lemma_filter_ends(all, keep);
    }
    while rest.len() > 0
        invariant
            0 <= done <= all.len(),
            keep == scores_at_least(least),
            rest@ == all.subrange(done, all.len() as int),
            out@ == all.subrange(0, done).filter(keep),
        decreases rest@.len(),
    {
        let a: ScoredArticle = rest.remove(0);
        proof {
            assert(a == all[done]);
            lemma_filter_step(all, keep, done);
            done = done + 1;
            assert(rest@ =~= all.subrange(done, all.len() as int));
        }
        if a.score >= least {
            out.push(a);
        }
    }
    assert(all.subrange(0, done) =~= all);
    let ghost full = out@;
    if out.len() > candidate_pool {
        out.truncate(candidate_pool);
        assert(out@ =~= full.subrange(0, candidate_pool as int));
    }
    let ghost pooled = out@;
    if out.len() > limit {
        out.truncate(limit);
        assert(out@ =~= pooled.subrange(0, limit as int));
    }
    out
}

// --- joining what was found by words with what was found by meaning ---

/// An article that was found, by words or by meaning.
#[derive(Debug, Clone, PartialEq, Eq)]
pub struct FoundArticle {
    pub record_sys_id: String,
    pub coverage: KnowledgeEmbeddingCoverage,
}

/// An article of both lists: where it stands in each, counted from one.
#[derive(Debug, Clone, PartialEq, Eq)]
pub struct MergedArticle {
    pub record_sys_id: String,
    pub coverage: KnowledgeEmbeddingCoverage,
    pub lexical_rank: Option<usize>,
    pub semantic_ranks: Vec<usize>,
}

pub open spec fn found_ids(found: Seq<FoundArticle>) -> Seq<Seq<char>> {
    found.map_values(|f: FoundArticle| f.record_sys_id@)
}

/// The last place of an article in a list.
pub open spec fn last_place(found: Seq<FoundArticle>, id: Seq<char>) -> Option<int>
    decreases found.len(),
{
    if found.len() == 0 {
        None
    } else if found.last().record_sys_id@ == id {
        Some(found.len() - 1)
    } else {
        last_place(found.drop_last(), id)
    }
}

/// All places of an article in a list, counted from one.
pub open spec fn ranks_of(found: Seq<FoundArticle>, id: Seq<char>) -> Seq<usize>
    decreases found.len(),
{
    if found.len() == 0 {
        Seq::empty()
    } else if found.last().record_sys_id@ == id {
        ranks_of(found.drop_last(), id).push(found.len() as usize)
    } else {
        ranks_of(found.drop_last(), id)
    }
}

/// What the two lists say of one article together. What was found by meaning
/// says what is covered.
pub open spec fn is_merged(
    m: MergedArticle,
    lexical: Seq<FoundArticle>,
    semantic: Seq<FoundArticle>,
) -> bool {
    let id = m.record_sys_id@;
    &&& m.semantic_ranks@ == ranks_of(semantic, id)
    &&& match last_place(lexical, id) {
        Some(i) => m.lexical_rank == Some((i + 1) as usize),
        None => m.lexical_rank is None,
    }
    &&& match last_place(semantic, id) {
        Some(i) => m.coverage == semantic[i].coverage,
        None => match last_place(lexical, id) {
            Some(i) => m.coverage == lexical[i].coverage,
            None => true,
        },
    }
}

pub open spec fn merged_ids(list: Seq<MergedArticle>) -> Seq<Seq<char>> {
    list.map_values(|m: MergedArticle| m.record_sys_id@)
}

fn find_last(found: &Vec<FoundArticle>, id: &str) -> (r: Option<usize>)
    ensures
        match r {
            Some(i) => i < found@.len() && last_place(found@, id@) == Some(i as int),
            None => last_place(found@, id@) is None,
        },
{
    let mut n: usize = found.len();
    assert(found@.subrange(0, n as int) =~= found@);
    while n > 0
        invariant
            n <= found@.len(),
            last_place(found@, id@) == last_place(found@.subrange(0, n as int), id@),
        decreases n,
    {
        proof {
            assert(found@.subrange(0, n as int).drop_last() =~= found@.subrange(0, n - 1));
            assert(found@.subrange(0, n as int).last() == found@[n - 1]);
        }
        if same(found[n - 1].record_sys_id.as_str(), id) {
            return Some(n - 1);
        }
        n -= 1;
    }
    None
}

fn find_ranks(found: &Vec<FoundArticle>, id: &str) -> (r: Vec<usize>)
    ensures
        r@ == ranks_of(found@, id@),
{
    let mut out: Vec<usize> = Vec::new();
    let mut i: usize = 0;
    let n: usize = found.len();
    assert(found@.subrange(0, 0) =~= Seq::<FoundArticle>::empty());
    while i < n
        invariant
            n == found@.len(),
            i <= n,
            out@ == ranks_of(found@.subrange(0, i as int), id@),
        decreases n - i,
    {
        proof {
            let longer = found@.subrange(0, i + 1);
            assert(longer.drop_last() =~= found@.subrange(0, i as int));
            assert(longer.last() == found@[i as int]);
            assert(longer.len() == i + 1);
        }
        if same(found[i].record_sys_id.as_str(), id) {
            out.push(i + 1);
        }
        i += 1;
    }
    assert(found@.subrange(0, i as int) =~= found@);
    out
}

fn add_ids(ids: &mut Vec<String>, found: &Vec<FoundArticle>)
    requires
        ascending(texts(old(ids)@)),
    ensures
        ascending(texts(final(ids)@)),
        forall|t: Seq<char>| #[trigger]
            texts(final(ids)@).contains(t) <==> texts(old(ids)@).contains(t) || found_ids(
                found@,
            ).contains(t),
{
    let ghost start = texts(ids@);
    let ghost all = found_ids(found@);
    let mut i: usize = 0;
    while i < found.len()
        invariant
            i <= found@.len(),
            all == found_ids(found@),
            ascending(texts(ids@)),
            forall|t: Seq<char>| #[trigger]
                texts(ids@).contains(t) <==> start.contains(t) || all.subrange(
                    0,
                    i as int,
                ).contains(t),
        decreases found@.len() - i,
    {
        insert_ascending(ids, found[i].record_sys_id.as_str());
        proof {
            let shorter = all.subrange(0, i as int);
            let longer = all.subrange(0, i + 1);
            assert forall|t: Seq<char>| #[trigger] longer.contains(t) == (shorter.contains(t) || t
                == all[i as int]) by {
                if shorter.contains(t) {
                    let k = choose|k: int| 0 <= k < shorter.len() && shorter[k] == t;
                    assert(longer[k] == t);
                }
                if t == all[i as int] {
                    assert(longer[i as int] == t);
                }
                if longer.contains(t) {
                    let k = choose|k: int| 0 <= k < longer.len() && longer[k] == t;
                    if k < i {
                        assert(shorter[k] == t);
                    }
                }
            }
        }
        i += 1;
    }
    assert(all.subrange(0, i as int) =~= all);
}

/// Joins the two lists: each article once, ordered by id.
pub fn merge_found(lexical: &Vec<FoundArticle>, semantic: &Vec<FoundArticle>) -> (r: Vec<
    MergedArticle,
>)
    ensures
        ascending(merged_ids(r@)),
        forall|t: Seq<char>| #[trigger]
            merged_ids(r@).contains(t) <==> found_ids(lexical@).contains(t) || found_ids(
                semantic@,
            ).contains(t),
        forall|i: int| 0 <= i < r@.len() ==> is_merged(#[trigger] r@[i], lexical@, semantic@),
{
    let mut ids: Vec<String> = Vec::new();
    proof {
        crate::text::lemma_texts_empty();
    }
    add_ids(&mut ids, lexical);
    add_ids(&mut ids, semantic);
    let ghost names = texts(ids@);
    let mut out: Vec<MergedArticle> = Vec::new();
    let mut i: usize = 0;
    assert(merged_ids(out@) =~= names.subrange(0, 0));
    while i < ids.len()
        invariant
            i <= ids@.len(),
            names == texts(ids@),
            merged_ids(out@) == names.subrange(0, i as int),
            forall|k: int| 0 <= k < out@.len() ==> is_merged(#[trigger] out@[k], lexical@, semantic@),
        decreases ids@.len() - i,
    {
        let id: &str = ids[i].as_str();
        let by_words: Option<usize> = find_last(lexical, id);
        let by_meaning: Option<usize> = find_last(semantic, id);
        let lexical_rank: Option<usize> = match by_words {
            Some(k) => {
                let n: usize = lexical.len();
                assert(k < n);
                Some(k + 1)
            },
            None => None,
        };
        let coverage: KnowledgeEmbeddingCoverage = match by_meaning {
            Some(k) => semantic[k].coverage,
            None => match by_words {
                Some(k) => lexical[k].coverage,
                None => KnowledgeEmbeddingCoverage::Metadata,
            },
        };
        let ghost before = out@;
        let m = MergedArticle {
            record_sys_id: id.to_owned(),
            coverage,
            lexical_rank,
            semantic_ranks: find_ranks(semantic, id),
        };
        out.push(m);
        proof {
            assert(merged_ids(out@) =~= merged_ids(before).push(names[i as int]));
            assert(names.subrange(0, i + 1) =~= names.subrange(0, i as int).push(names[i as int]));
        }
        i += 1;
    }
    assert(names.subrange(0, i as int) =~= names);
    out
}

/// An article of the joined list with its score; `exact` says that its title is
/// what was searched for.
#[derive(Debug, Clone, PartialEq, Eq)]
pub struct HybridArticle {
    pub record_sys_id: String,
    pub number: String,
    pub exact: bool,
    pub score: i64,
}

/// An exact title comes first, then higher scores, then the earlier number.
impl Ranked for HybridArticle {
    open spec fn before(self, other: Self) -> bool {
        (self.exact && !other.exact) || (self.exact == other.exact && (self.score > other.score || (
        self.score == other.score && text_less(self.number@, other.number@))))
    }

    proof fn rank_laws(a: Self, b: Self, c: Self) {
        lemma_text_order(a.number@, b.number@, c.number@);
    }

    fn precedes(&self, other: &Self) -> (r: bool) {
        (self.exact && !other.exact) || (self.exact == other.exact && (self.score > other.score || (
        self.score == other.score && less_text(self.number.as_str(), other.number.as_str()))))
    }
}

/// Ranks the joined list, and keeps as many articles as are wanted.
pub fn rank_hybrid_hits(hits: Vec<HybridArticle>, limit: usize) -> (r: Vec<HybridArticle>)
    ensures
        r@ == take(sorted(hits@), limit as int),
{
    let mut out: Vec<HybridArticle> = sort(hits);
    let ghost full = out@;
    if out.len() > limit {
        out.truncate(limit);
        assert(out@ =~= full.subrange(0, limit as int));
    }
    out
}

/// An article whose title is what was searched for comes before every other.
pub proof fn exact_titles_come_first(hits: Seq<HybridArticle>, i: int, j: int)
    requires
        0 <= i < sorted(hits).len(),
        0 <= j < sorted(hits).len(),
        sorted(hits)[i].exact,
        !sorted(hits)[j].exact,
    ensures
        i < j,
{
    crate::order::sorting_orders(hits);
    if j < i {
        assert(!sorted(hits)[i].before(sorted(hits)[j]));
    }
}

// --- how far a search goes ---

/// The bounds of a search: those that were asked for, else those of the settings.
pub struct SearchBounds {
    pub limit: usize,
    pub candidate_pool: usize,
    pub min_score_millis: u32,
}

pub fn search_bounds(filters: &KnowledgeSemanticSearchFilters, config: &SemanticConfig) -> (r:
    SearchBounds)
    ensures
        r.limit == (match filters.limit {
            Some(n) => n,
            None => config.top_k,
        }),
        r.candidate_pool == config.candidate_pool,
        r.min_score_millis == (match filters.min_score_millis {
            Some(n) => n,
            None => config.min_score_millis,
        }),
{
    SearchBounds {
        limit: match filters.limit {
            Some(n) => n,
            None => config.top_k,
        },
        candidate_pool: config.candidate_pool,
        min_score_millis: match filters.min_score_millis {
            Some(n) => n,
            None => config.min_score_millis,
        },
    }
}

/// Whether there is any embedding of the model to compare with.
pub fn has_embeddings(rows: &Vec<EmbeddingRow>, model: &str) -> (r: bool)
    ensures
        r == exists|i: int| 0 <= i < rows@.len() && (#[trigger] rows@[i]).model@ == model@,
{
    let mut i: usize = 0;
    while i < rows.len()
        invariant
            i <= rows@.len(),
            forall|k: int| 0 <= k < i ==> (#[trigger] rows@[k]).model@ != model@,
        decreases rows@.len() - i,
    {
        if same(rows[i].model.as_str(), model) {
            return true;
        }
        i += 1;
    }
    false
}

pub open spec fn comparable(model: Seq<char>, ids: Seq<Seq<char>>) -> spec_fn(EmbeddingRow) -> bool {
    |row: EmbeddingRow| row.model@ == model && ids.contains(row.record_sys_id@)
}

/// The embeddings that a query is compared with: those of the model, of the
/// articles that pass the filters.
pub fn comparable_rows(rows: Vec<EmbeddingRow>, model: &str, ids: &Vec<String>) -> (r: Vec<
    EmbeddingRow,
>)
    ensures
        r@ == rows@.filter(comparable(model@, texts(ids@))),
{
    let ghost all = rows@;
    let ghost keep = comparable(model@, texts(ids@));
    let mut rest: Vec<EmbeddingRow> = rows;
    let mut out: Vec<EmbeddingRow> = Vec::new();
    let ghost mut done: int = 0;
    proof {
        lemma_filter_ends(all, keep);
    }
    while rest.len() > 0
        invariant
            0 <= done <= all.len(),
            keep == comparable(model@, texts(ids@)),
            rest@ == all.subrange(done, all.len() as int),
            out@ == all.subrange(0, done).filter(keep),
        decreases rest@.len(),
    {
        let row: EmbeddingRow = rest.remove(0);
        proof {
            assert(row == all[done]);
            lemma_filter_step(all, keep, done);
            done = done + 1;
            assert(rest@ =~= all.subrange(done, all.len() as int));
        }
        if same(row.model.as_str(), model) && list_has(ids, row.record_sys_id.as_str()) {
            out.push(row);
        }
    }
    assert(all.subrange(0, done) =~= all);
    out
}

} // verus!
