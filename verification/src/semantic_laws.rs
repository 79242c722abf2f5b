//! Laws of the search among articles by meaning.
use vstd::prelude::*;

use crate::article::{is_blank, passes, KnowledgeArticle};
use crate::listing::lemma_filter_keeps;
use crate::order::{in_order, sorted, sorting_orders, Ranked};
use crate::semantic::{
    batch_end, comparable, config_fault, coverage_count, is_current, is_due, is_merged, is_stale,
    last_place, model_dimensions, passes_filters, ranks_of, row_for, scores_at_least,
    semantic_hits, stale_count, take, text_coverage, vector_count_fault, EmbeddingInput,
    EmbeddingRow, FoundArticle, HybridArticle, KnowledgeEmbeddingCoverage,
    KnowledgeSemanticSearchFilters, MergedArticle, ScoredArticle, SemanticConfig,
};
use crate::text::{decimal, text_less, text_of, trim};

verus! {

/// A provider is there where the search is enabled, a model is named, the provider is the
/// one that there is, and its address is known.
pub proof fn searches_need_a_provider(config: SemanticConfig)
    ensures
        config_fault(config) is None <==> {
            &&& config.enabled
            &&& !is_blank(config.model@)
            &&& trim(config.provider@) == "ollama"@
            &&& !is_blank(config.endpoint@)
        },
{
}

proof fn lemma_row_for(rows: Seq<EmbeddingRow>, id: Seq<char>, at: int)
    ensures
        (forall|i: int| 0 <= i < rows.len() ==> (#[trigger] rows[i]).record_sys_id@ != id)
            ==> row_for(rows, id) is None,
        0 <= at < rows.len() && rows[at].record_sys_id@ == id && (forall|k: int|
            at < k < rows.len() ==> (#[trigger] rows[k]).record_sys_id@ != id) ==> row_for(rows, id)
            == Some(rows[at]),
    decreases rows.len(),
{
    if rows.len() > 0 {
        let front = rows.drop_last();
        let n = rows.len() - 1;
        assert(rows[n] == rows.last());
        lemma_row_for(front, id, at);
        assert forall|i: int| 0 <= i < n implies #[trigger] front[i] == rows[i] by {
        }
        if rows.last().record_sys_id@ != id {
            if 0 <= at < n {
                assert(front[at] == rows[at]);
            }
        }
    }
}

/// An embedding is that of the article as it is where model, provider, coverage and the
/// hash of the content agree.
pub proof fn embeddings_are_current_while_nothing_changes(
    row: EmbeddingRow,
    input: EmbeddingInput,
    model: Seq<char>,
    provider: Seq<char>,
)
    ensures
        is_current(row, input, model, provider) <==> {
            &&& row.model@ == model
            &&& row.provider@ == provider
            &&& row.coverage == input.coverage
            &&& row.content_hash@ == input.content_hash@
        },
{
}

/// An article is due where everything is, where no embedding of it is stored, or where the
/// last that is stored is no longer current; it is stale in the last case alone.
pub proof fn articles_are_due_without_a_current_embedding(
    full: bool,
    rows: Seq<EmbeddingRow>,
    input: EmbeddingInput,
    model: Seq<char>,
    provider: Seq<char>,
    at: int,
)
    ensures
        ({
            let id = input.record_sys_id@;
            let none = forall|i: int|
                0 <= i < rows.len() ==> (#[trigger] rows[i]).record_sys_id@ != id;
            let last = 0 <= at < rows.len() && rows[at].record_sys_id@ == id && (forall|k: int|
                at < k < rows.len() ==> (#[trigger] rows[k]).record_sys_id@ != id);
            &&& full ==> is_due(full, rows, model, provider)(input)
            &&& none ==> is_due(full, rows, model, provider)(input) && !is_stale(
                rows,
                input,
                model,
                provider,
            )
            &&& last && !full ==> (is_due(full, rows, model, provider)(input) <==> !is_current(
                rows[at],
                input,
                model,
                provider,
            ))
            &&& last ==> (is_stale(rows, input, model, provider) <==> !is_current(
                rows[at],
                input,
                model,
                provider,
            ))
        }),
{
    lemma_row_for(rows, input.record_sys_id@, at);
}

/// Batches are as large as they may be, at least one, and the last one ends the list.
pub proof fn batches_cover_the_list(from: int, total: int, size: int)
    requires
        0 <= from < total,
    ensures
        from < batch_end(from, total, size) <= total,
        size >= 1 ==> batch_end(from, total, size) - from <= size,
        size >= 1 && from + size <= total ==> batch_end(from, total, size) == from + size,
        size >= 1 && from + size > total ==> batch_end(from, total, size) == total,
        size < 1 ==> batch_end(from, total, size) == from + 1,
{
}

pub open spec fn stale_inputs(
    rows: Seq<EmbeddingRow>,
    model: Seq<char>,
    provider: Seq<char>,
) -> spec_fn(EmbeddingInput) -> bool {
    |input: EmbeddingInput| is_stale(rows, input, model, provider)
}

pub open spec fn covering(
    model: Seq<char>,
    coverage: KnowledgeEmbeddingCoverage,
) -> spec_fn(EmbeddingRow) -> bool {
    |row: EmbeddingRow| row.model@ == model && row.coverage == coverage
}

/// The stale articles and the embeddings of a model are counted.
pub proof fn embeddings_are_counted(
    rows: Seq<EmbeddingRow>,
    inputs: Seq<EmbeddingInput>,
    model: Seq<char>,
    provider: Seq<char>,
    coverage: KnowledgeEmbeddingCoverage,
)
    ensures
        stale_count(rows, inputs, model, provider) == inputs.filter(
            stale_inputs(rows, model, provider),
        ).len(),
        coverage_count(rows, model, coverage) == rows.filter(covering(model, coverage)).len(),
{
    lemma_stale(rows, inputs, model, provider);
    lemma_covering(rows, model, coverage);
}

proof fn lemma_stale(
    rows: Seq<EmbeddingRow>,
    inputs: Seq<EmbeddingInput>,
    model: Seq<char>,
    provider: Seq<char>,
)
    ensures
        stale_count(rows, inputs, model, provider) == inputs.filter(
            stale_inputs(rows, model, provider),
        ).len(),
    decreases inputs.len(),
{
    reveal(Seq::filter);
    if inputs.len() > 0 {
        lemma_stale(rows, inputs.drop_last(), model, provider);
    }
}

proof fn lemma_covering(
    rows: Seq<EmbeddingRow>,
    model: Seq<char>,
    coverage: KnowledgeEmbeddingCoverage,
)
    ensures
        coverage_count(rows, model, coverage) == rows.filter(covering(model, coverage)).len(),
    decreases rows.len(),
{
    reveal(Seq::filter);
    if rows.len() > 0 {
        lemma_covering(rows.drop_last(), model, coverage);
    }
}

/// The dimensions of a model are those of the first of its embeddings that has any.
pub proof fn dimensions_are_those_of_the_first(rows: Seq<EmbeddingRow>, model: Seq<char>, at: int)
    ensures
        (forall|i: int|
            0 <= i < rows.len() && (#[trigger] rows[i]).model@ == model ==> rows[i].dimensions == 0)
            ==> model_dimensions(rows, model) == 0,
        0 <= at < rows.len() && rows[at].model@ == model && rows[at].dimensions > 0 && (forall|
            i: int,
        |
            0 <= i < at && (#[trigger] rows[i]).model@ == model ==> rows[i].dimensions == 0)
            ==> model_dimensions(rows, model) == rows[at].dimensions,
    decreases rows.len(),
{
    if rows.len() > 0 {
        let front = rows.drop_last();
        let n = rows.len() - 1;
        assert(rows[n] == rows.last());
        assert forall|i: int| 0 <= i < n implies #[trigger] front[i] == rows[i] by {
        }
        dimensions_are_those_of_the_first(front, model, at);
        if forall|i: int|
            0 <= i < n && (#[trigger] rows[i]).model@ == model ==> rows[i].dimensions == 0 {
            assert forall|i: int|
                0 <= i < front.len() && (#[trigger] front[i]).model@ == model implies front[i].dimensions
                == 0 by {
                assert(front[i] == rows[i]);
            }
        }
        if 0 <= at < n && rows[at].model@ == model && rows[at].dimensions > 0 && (forall|i: int|
            0 <= i < at && (#[trigger] rows[i]).model@ == model ==> rows[i].dimensions == 0) {
            assert(front[at] == rows[at]);
            assert forall|i: int| 0 <= i < at && (#[trigger] front[i]).model@ == model implies front[i].dimensions
                == 0 by {
                assert(front[i] == rows[i]);
            }
        }
    }
}

/// An article passes the filters of a search where it passes that on the knowledge base and
/// that on the category.
pub proof fn articles_pass_both_filters(
    article: KnowledgeArticle,
    filters: KnowledgeSemanticSearchFilters,
)
    ensures
        passes_filters(article, filters) <==> passes(
            text_of(filters.knowledge_base),
            article.knowledge_base,
        ) && passes(text_of(filters.category), article.category),
        text_coverage(true) == KnowledgeEmbeddingCoverage::FullText,
        text_coverage(false) == KnowledgeEmbeddingCoverage::Metadata,
{
}

proof fn lemma_filter_in_order(list: Seq<ScoredArticle>, keep: spec_fn(ScoredArticle) -> bool)
    requires
        in_order(list),
    ensures
        in_order(list.filter(keep)),
        forall|i: int|
            0 <= i < list.filter(keep).len() ==> list.contains(#[trigger] list.filter(keep)[i]),
    decreases list.len(),
{
    reveal(Seq::filter);
    if list.len() > 0 {
        let front = list.drop_last();
        let kept = list.filter(keep);
        let before = front.filter(keep);
        assert forall|i: int, j: int| 0 <= i < j < front.len() implies !(
        #[trigger] front[j]).before(#[trigger] front[i]) by {
            assert(front[i] == list[i] && front[j] == list[j]);
        }
        lemma_filter_in_order(front, keep);
        assert forall|i: int| 0 <= i < kept.len() implies list.contains(#[trigger] kept[i]) by {
            if i < before.len() {
                assert(front.contains(before[i]));
                let k = front.index_of(before[i]);
                assert(list[k] == kept[i]);
            } else {
                assert(list[list.len() - 1] == kept[i]);
            }
        }
        assert forall|i: int, j: int| 0 <= i < j < kept.len() implies !(
        #[trigger] kept[j]).before(#[trigger] kept[i]) by {
            if j < before.len() {
                assert(!before[j].before(before[i]));
            } else {
                assert(front.contains(before[i]));
                let k = front.index_of(before[i]);
                assert(list[k] == kept[i]);
                assert(!list[list.len() - 1].before(list[k]));
            }
        }
    }
}

/// The articles that a search by meaning finds score well enough; higher scores come first,
/// and of equal ones the earlier number; there are no more than are wanted or looked at.
pub proof fn hits_come_by_score(
    scored: Seq<ScoredArticle>,
    least: i64,
    pool: int,
    limit: int,
    i: int,
    j: int,
)
    requires
        0 <= pool,
        0 <= limit,
    ensures
        ({
            let hits = semantic_hits(scored, least, pool, limit);
            &&& hits.len() <= limit
            &&& hits.len() <= pool
            &&& 0 <= i < hits.len() ==> hits[i].score >= least && scored.contains(hits[i])
            &&& 0 <= i < j < hits.len() ==> hits[i].score >= hits[j].score
            &&& 0 <= i < j < hits.len() && hits[i].score == hits[j].score ==> !text_less(
                hits[j].number@,
                hits[i].number@,
            )
        }),
{
    let all = sorted(scored);
    let keep = scores_at_least(least);
    let kept = all.filter(keep);
    sorting_orders(scored);
    lemma_filter_in_order(all, keep);
    lemma_filter_keeps(all, keep);
    let hits = semantic_hits(scored, least, pool, limit);
    if 0 <= i < hits.len() {
        assert(hits[i] == kept[i]);
        assert(kept.contains(kept[i]));
        assert(all.contains(kept[i]));
        lemma_carried(scored, kept[i]);
    }
    if 0 <= i < j < hits.len() {
        assert(hits[i] == kept[i] && hits[j] == kept[j]);
        assert(!kept[j].before(kept[i]));
    }
}

proof fn lemma_carried(scored: Seq<ScoredArticle>, a: ScoredArticle)
    requires
        sorted(scored).contains(a),
    ensures
        scored.contains(a),
{
    sorting_orders(scored);
    broadcast use vstd::seq_lib::group_to_multiset_ensures;

    assert(sorted(scored).to_multiset().count(a) > 0);
    assert(scored.to_multiset().count(a) > 0);
}

/// No article that scores well enough is left out while there is room.
pub proof fn good_articles_are_found(
    scored: Seq<ScoredArticle>,
    least: i64,
    pool: int,
    limit: int,
    a: ScoredArticle,
)
    requires
        scored.contains(a),
        a.score >= least,
        scored.len() <= pool,
        scored.len() <= limit,
    ensures
        semantic_hits(scored, least, pool, limit).contains(a),
{
    sorting_orders(scored);
    broadcast use vstd::seq_lib::group_to_multiset_ensures;

    assert(scored.to_multiset().count(a) > 0);
    assert(sorted(scored).contains(a));
    lemma_filter_keeps(sorted(scored), scores_at_least(least));
    crate::listing::lemma_filter_sound(sorted(scored), scores_at_least(least));
}

/// The first items of a list are as many as are wanted, or all where there are fewer.
pub proof fn the_first_are_taken<T>(items: Seq<T>, n: int, i: int)
    requires
        0 <= n,
    ensures
        items.len() <= n ==> take(items, n) == items,
        items.len() > n ==> take(items, n).len() == n,
        0 <= i < take(items, n).len() ==> take(items, n)[i] == items[i],
{
}

/// Articles of both lists rank by an exact title, then by score, then by number.
pub proof fn joined_hits_come_by_title_and_score(hits: Seq<HybridArticle>, i: int, j: int)
    requires
        0 <= i < j < sorted(hits).len(),
    ensures
        ({
            let a = sorted(hits)[i];
            let b = sorted(hits)[j];
            &&& b.exact ==> a.exact
            &&& a.exact == b.exact ==> a.score >= b.score
            &&& a.exact == b.exact && a.score == b.score ==> !text_less(b.number@, a.number@)
        }),
        sorted(hits).to_multiset() == hits.to_multiset(),
{
    sorting_orders(hits);
    assert(!sorted(hits)[j].before(sorted(hits)[i]));
}

proof fn lemma_last_place(found: Seq<FoundArticle>, id: Seq<char>)
    ensures
        last_place(found, id) is None <==> forall|i: int|
            0 <= i < found.len() ==> (#[trigger] found[i]).record_sys_id@ != id,
        last_place(found, id) is Some ==> {
            let at = last_place(found, id)->0;
            &&& 0 <= at < found.len()
            &&& found[at].record_sys_id@ == id
            &&& forall|k: int| at < k < found.len() ==> (#[trigger] found[k]).record_sys_id@ != id
        },
    decreases found.len(),
{
    if found.len() > 0 {
        let front = found.drop_last();
        let n = found.len() - 1;
        assert(found[n] == found.last());
        assert forall|i: int| 0 <= i < n implies #[trigger] found[i] == front[i] by {
        }
        lemma_last_place(front, id);
        if found.last().record_sys_id@ != id && last_place(front, id) is None {
            assert forall|i: int| 0 <= i < found.len() implies (#[trigger] found[i]).record_sys_id@
                != id by {
                if i < n {
                    assert(front[i].record_sys_id@ != id);
                }
            }
        }
    }
}

proof fn lemma_ranks(found: Seq<FoundArticle>, id: Seq<char>)
    requires
        found.len() <= usize::MAX,
    ensures
        forall|r: usize| #[trigger]
            ranks_of(found, id).contains(r) <==> 1 <= r <= found.len() && found[r
                - 1].record_sys_id@ == id,
        forall|i: int, j: int|
            0 <= i < j < ranks_of(found, id).len() ==> ranks_of(found, id)[i] < ranks_of(
                found,
                id,
            )[j],
    decreases found.len(),
{
    if found.len() > 0 {
        let front = found.drop_last();
        let n = found.len() - 1;
        lemma_ranks(front, id);
        let before = ranks_of(front, id);
        let after = ranks_of(found, id);
        assert forall|r: usize| #[trigger] after.contains(r) <==> 1 <= r <= found.len() && found[r
            - 1].record_sys_id@ == id by {
            if after.contains(r) {
                let k = after.index_of(r);
                if k < before.len() {
                    assert(before[k] == r);
                    assert(before.contains(r));
                    assert(front[r - 1] == found[r - 1]);
                }
            }
            if 1 <= r <= found.len() && found[r - 1].record_sys_id@ == id {
                if r <= n {
                    assert(front[r - 1] == found[r - 1]);
                    assert(before.contains(r));
                    let k = before.index_of(r);
                    assert(after[k] == r);
                } else {
                    assert(after[before.len() as int] == r);
                }
            }
        }
        assert forall|i: int, j: int| 0 <= i < j < after.len() implies after[i] < after[j] by {
            if j < before.len() {
                assert(before[i] < before[j]);
            } else {
                assert(before.contains(before[i]));
            }
        }
    }
}

/// A joined article tells where it stands in both lists, counted from one: where it was
/// found last by words, and everywhere it was found by meaning; what was found by meaning
/// says what is covered.
pub proof fn joined_articles_tell_their_places(
    m: MergedArticle,
    lexical: Seq<FoundArticle>,
    semantic: Seq<FoundArticle>,
    at: int,
)
    requires
        is_merged(m, lexical, semantic),
        lexical.len() < usize::MAX,
        semantic.len() < usize::MAX,
    ensures
        m.lexical_rank is None <==> forall|i: int|
            0 <= i < lexical.len() ==> (#[trigger] lexical[i]).record_sys_id@ != m.record_sys_id@,
        m.lexical_rank is Some ==> {
            let r = m.lexical_rank->0;
            &&& 1 <= r <= lexical.len()
            &&& lexical[r - 1].record_sys_id@ == m.record_sys_id@
            &&& forall|k: int|
                r <= k < lexical.len() ==> (#[trigger] lexical[k]).record_sys_id@
                    != m.record_sys_id@
        },
        forall|r: usize| #[trigger]
            m.semantic_ranks@.contains(r) <==> 1 <= r <= semantic.len() && semantic[r
                - 1].record_sys_id@ == m.record_sys_id@,
        0 <= at < semantic.len() && semantic[at].record_sys_id@ == m.record_sys_id@ && (forall|
            k: int,
        |
            at < k < semantic.len() ==> (#[trigger] semantic[k]).record_sys_id@ != m.record_sys_id@)
            ==> m.coverage == semantic[at].coverage,
        (forall|i: int|
            0 <= i < semantic.len() ==> (#[trigger] semantic[i]).record_sys_id@
                != m.record_sys_id@) && m.lexical_rank is Some ==> m.coverage
            == lexical[m.lexical_rank->0 - 1].coverage,
{
    let id = m.record_sys_id@;
    lemma_last_place(lexical, id);
    lemma_last_place(semantic, id);
    lemma_ranks(semantic, id);
    if last_place(semantic, id) is Some && 0 <= at < semantic.len()
        && semantic[at].record_sys_id@ == id {
        let p = last_place(semantic, id)->0;
        if p < at {
            assert(semantic[at].record_sys_id@ != id);
        }
    }
}

/// A query is compared with the embeddings of the model, of the articles that are meant.
pub proof fn queries_are_compared_with_their_model(
    rows: Seq<EmbeddingRow>,
    model: Seq<char>,
    ids: Seq<Seq<char>>,
    row: EmbeddingRow,
)
    ensures
        rows.filter(comparable(model, ids)).contains(row) <==> rows.contains(row) && row.model@
            == model && ids.contains(row.record_sys_id@),
{
    lemma_filter_keeps(rows, comparable(model, ids));
}

/// How many vectors came for how many inputs is told.
pub proof fn missing_vectors_are_counted(vectors: nat, inputs: nat)
    ensures
        vector_count_fault(vectors, inputs) == "semantic embedding provider returned "@ + decimal(
            vectors,
        ) + " vectors for "@ + decimal(inputs) + " inputs"@,
{
}

} // verus!
