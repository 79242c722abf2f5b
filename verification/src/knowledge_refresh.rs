//! Refreshing the derived tags of knowledge articles.
use vstd::prelude::*;
use vstd::string::*;

use crate::article::{blank, is_blank, KnowledgeArticle};
use crate::knowledge_sync::KnowledgeSyncMode;
use crate::listing::occurrences;
use crate::terms::{
    decrement_term_stats, increment_term_stats, same_tags, strip_html, stripped,
    total_occurrences, ArticleTerms, TermStats,
};
use crate::text::{chars_of, joined, slice_string, texts};

verus! {

/// How the tags are refreshed.
#[derive(Debug, Clone, Copy, PartialEq, Eq, Structural)]
pub enum RefreshPlan {
    /// There is no article: all numbers are dropped.
    Clear,
    /// Every article is counted anew.
    Full,
    /// No article has changed: only the numbers are written back.
    StatsOnly,
    /// The changed articles are counted.
    Incremental,
}

pub fn refresh_plan(
    mode: KnowledgeSyncMode,
    active_articles: usize,
    stats_empty: bool,
    nothing_changed: bool,
) -> (r: RefreshPlan)
    ensures
        r == (if mode == KnowledgeSyncMode::Full {
            RefreshPlan::Full
        } else if active_articles == 0 {
            RefreshPlan::Clear
        } else if stats_empty {
            RefreshPlan::Full
        } else if nothing_changed {
            RefreshPlan::StatsOnly
        } else {
            RefreshPlan::Incremental
        }),
{
    match mode {
        KnowledgeSyncMode::Full => RefreshPlan::Full,
        KnowledgeSyncMode::Incremental => if active_articles == 0 {
            RefreshPlan::Clear
        } else if stats_empty {
            RefreshPlan::Full
        } else if nothing_changed {
            RefreshPlan::StatsOnly
        } else {
            RefreshPlan::Incremental
        },
    }
}

/// The words of an article before and after it changed.
#[derive(Debug, Clone, PartialEq, Eq)]
pub struct TermChange {
    pub sys_id: String,
    pub old_terms: Vec<String>,
    pub new_terms: Vec<String>,
}

/// What is left of `n` when `k` is taken away.
pub open spec fn less(n: nat, k: nat) -> nat {
    if n >= k {
        (n - k) as nat
    } else {
        0
    }
}

/// A word's number once the articles in the list are gone.
pub open spec fn after_removals(n: nat, removed: Seq<ArticleTerms>, t: Seq<char>) -> nat
    decreases removed.len(),
{
    if removed.len() == 0 {
        n
    } else {
        less(
            after_removals(n, removed.drop_last(), t),
            occurrences(texts(removed.last().terms@), t),
        )
    }
}

/// A word's number once the articles in the list have changed.
pub open spec fn after_changes(n: nat, changes: Seq<TermChange>, t: Seq<char>) -> nat
    decreases changes.len(),
{
    if changes.len() == 0 {
        n
    } else {
        less(
            after_changes(n, changes.drop_last(), t),
            occurrences(texts(changes.last().old_terms@), t),
        ) + occurrences(texts(changes.last().new_terms@), t)
    }
}

/// How often a word stands in the new words of all the changes.
pub open spec fn new_occurrences(changes: Seq<TermChange>, t: Seq<char>) -> nat
    decreases changes.len(),
{
    if changes.len() == 0 {
        0
    } else {
        new_occurrences(changes.drop_last(), t) + occurrences(
            texts(changes.last().new_terms@),
            t,
        )
    }
}

/// Brings the numbers up to date: the words of the removed articles go, and
/// those of the changed ones are counted anew.
pub fn refresh_term_stats(
    stats: &mut TermStats,
    removed: &Vec<ArticleTerms>,
    changes: &Vec<TermChange>,
)
    requires
        old(stats).wf(),
        forall|t: Seq<char>| #[trigger]
            old(stats).count(t) + new_occurrences(changes@, t) <= usize::MAX,
    ensures
        final(stats).wf(),
        forall|t: Seq<char>| #[trigger]
            final(stats).count(t) == after_changes(
                after_removals(old(stats).count(t), removed@, t),
                changes@,
                t,
            ),
{
    let ghost before = *stats;
    let mut i: usize = 0;
    assert(removed@.subrange(0, 0) =~= Seq::<ArticleTerms>::empty());
    while i < removed.len()
        invariant
            i <= removed@.len(),
            stats.wf(),
            forall|t: Seq<char>| #[trigger]
                stats.count(t) == after_removals(
                    before.count(t),
                    removed@.subrange(0, i as int),
                    t,
                ),
        decreases removed@.len() - i,
    {
        let ghost now = *stats;
        decrement_term_stats(stats, &removed[i].terms);
        proof {
            let longer = removed@.subrange(0, i + 1);
            assert(longer.drop_last() =~= removed@.subrange(0, i as int));
            assert(longer.last() == removed@[i as int]);
            assert forall|t: Seq<char>| #[trigger]
                stats.count(t) == after_removals(before.count(t), longer, t) by {
                assert(now.count(t) == after_removals(
                    before.count(t),
                    removed@.subrange(0, i as int),
                    t,
                ));
            }
        }
        i += 1;
    }
    assert(removed@.subrange(0, i as int) =~= removed@);
    let mut k: usize = 0;
    assert(changes@.subrange(0, 0) =~= Seq::<TermChange>::empty());
    while k < changes.len()
        invariant
            k <= changes@.len(),
            stats.wf(),
            forall|t: Seq<char>| #[trigger]
                before.count(t) + new_occurrences(changes@, t) <= usize::MAX,
            forall|t: Seq<char>| #[trigger]
                stats.count(t) == after_changes(
                    after_removals(before.count(t), removed@, t),
                    changes@.subrange(0, k as int),
                    t,
                ),
        decreases changes@.len() - k,
    {
        let ghost now = *stats;
        let ghost shorter = changes@.subrange(0, k as int);
        let ghost longer = changes@.subrange(0, k + 1);
        proof {
            assert(longer.drop_last() =~= shorter);
            assert(longer.last() == changes@[k as int]);
        }
        decrement_term_stats(stats, &changes[k].old_terms);
        let ghost between = *stats;
        proof {
            assert forall|t: Seq<char>| #[trigger]
                between.count(t) + occurrences(texts(changes@[k as int].new_terms@), t)
                    <= usize::MAX by {
                lemma_changes_bounded(
                    after_removals(before.count(t), removed@, t),
                    shorter,
                    t,
                );
                lemma_removals_shrink(before.count(t), removed@, t);
                lemma_new_grows(changes@, k + 1, t);
                assert(before.count(t) + new_occurrences(changes@, t) <= usize::MAX);
                assert(now.count(t) == after_changes(
                    after_removals(before.count(t), removed@, t),
                    shorter,
                    t,
                ));
            }
        }
        increment_term_stats(stats, &changes[k].new_terms);
        proof {
            assert forall|t: Seq<char>| #[trigger]
                stats.count(t) == after_changes(
                    after_removals(before.count(t), removed@, t),
                    longer,
                    t,
                ) by {
                assert(now.count(t) == after_changes(
                    after_removals(before.count(t), removed@, t),
                    shorter,
                    t,
                ));
                assert(between.count(t) == less(
                    now.count(t),
                    occurrences(texts(changes@[k as int].old_terms@), t),
                ));
            }
        }
        k += 1;
    }
    assert(changes@.subrange(0, k as int) =~= changes@);
}

proof fn lemma_removals_shrink(n: nat, removed: Seq<ArticleTerms>, t: Seq<char>)
    ensures
        after_removals(n, removed, t) <= n,
    decreases removed.len(),
{
    if removed.len() > 0 {
        lemma_removals_shrink(n, removed.drop_last(), t);
    }
}

proof fn lemma_changes_bounded(n: nat, changes: Seq<TermChange>, t: Seq<char>)
    ensures
        after_changes(n, changes, t) <= n + new_occurrences(changes, t),
    decreases changes.len(),
{
    if changes.len() > 0 {
        lemma_changes_bounded(n, changes.drop_last(), t);
    }
}

proof fn lemma_new_grows(changes: Seq<TermChange>, k: int, t: Seq<char>)
    requires
        0 <= k <= changes.len(),
    ensures
        new_occurrences(changes.subrange(0, k), t) <= new_occurrences(changes, t),
    decreases changes.len(),
{
    if k == changes.len() {
        assert(changes.subrange(0, k) =~= changes);
    } else {
        lemma_new_grows(changes.drop_last(), k, t);
        assert(changes.drop_last().subrange(0, k) =~= changes.subrange(0, k));
    }
}

/// The list of articles once one of them has changed. An article at the end of
/// the list is new.
pub open spec fn with_change(entries: Seq<ArticleTerms>, c: TermChange, at: int) -> Seq<
    ArticleTerms,
> {
    let fresh = ArticleTerms { sys_id: c.sys_id, terms: c.new_terms };
    if at == entries.len() {
        entries.push(fresh)
    } else {
        entries.update(at, fresh)
    }
}

/// The words that an article had: a new one had none.
pub open spec fn terms_before(entries: Seq<ArticleTerms>, at: int) -> Seq<Seq<char>> {
    if at == entries.len() {
        Seq::empty()
    } else {
        texts(entries[at].terms@)
    }
}

/// The list of articles once several have changed, one after the other.
pub open spec fn with_changes(
    entries: Seq<ArticleTerms>,
    changes: Seq<TermChange>,
    at: Seq<int>,
) -> Seq<ArticleTerms>
    decreases changes.len(),
{
    if changes.len() == 0 {
        entries
    } else {
        with_change(
            with_changes(entries, changes.drop_last(), at.drop_last()),
            changes.last(),
            at.last(),
        )
    }
}

/// Whether each change tells truly what the words of its article were.
pub open spec fn changes_are_true(
    entries: Seq<ArticleTerms>,
    changes: Seq<TermChange>,
    at: Seq<int>,
) -> bool
    decreases changes.len(),
{
    &&& changes.len() == at.len()
    &&& changes.len() > 0 ==> {
        let before = with_changes(entries, changes.drop_last(), at.drop_last());
        &&& changes_are_true(entries, changes.drop_last(), at.drop_last())
        &&& 0 <= at.last() <= before.len()
        &&& texts(changes.last().old_terms@) == terms_before(before, at.last())
    }
}

/// Counting only the changed articles gives the numbers that counting all of
/// them anew would give.
pub proof fn incremental_refresh_equals_recounting(
    entries: Seq<ArticleTerms>,
    changes: Seq<TermChange>,
    at: Seq<int>,
    t: Seq<char>,
)
    requires
        changes_are_true(entries, changes, at),
    ensures
        after_changes(total_occurrences(entries, t), changes, t) == total_occurrences(
            with_changes(entries, changes, at),
            t,
        ),
    decreases changes.len(),
{
    if changes.len() > 0 {
        let front = changes.drop_last();
        let places = at.drop_last();
        incremental_refresh_equals_recounting(entries, front, places, t);
        let before = with_changes(entries, front, places);
        let c = changes.last();
        let fresh = ArticleTerms { sys_id: c.sys_id, terms: c.new_terms };
        if at.last() == before.len() {
            assert(before.push(fresh).drop_last() =~= before);
            assert(occurrences(Seq::<Seq<char>>::empty(), t) == 0);
        } else {
            lemma_total_replaced(before, at.last(), fresh, t);
        }
    }
}

proof fn lemma_total_replaced(
    entries: Seq<ArticleTerms>,
    at: int,
    fresh: ArticleTerms,
    t: Seq<char>,
)
    requires
        0 <= at < entries.len(),
    ensures
        total_occurrences(entries.update(at, fresh), t) + occurrences(texts(entries[at].terms@), t)
            == total_occurrences(entries, t) + occurrences(texts(fresh.terms@), t),
        total_occurrences(entries, t) >= occurrences(texts(entries[at].terms@), t),
    decreases entries.len(),
{
    let after = entries.update(at, fresh);
    if at == entries.len() - 1 {
        assert(after.drop_last() =~= entries.drop_last());
    } else {
        assert(after.drop_last() =~= entries.drop_last().update(at, fresh));
        lemma_total_replaced(entries.drop_last(), at, fresh, t);
    }
}

/// The articles whose derived tags have changed, with their new tags.
pub open spec fn retagged(articles: Seq<KnowledgeArticle>, next: Seq<Vec<String>>) -> Seq<
    KnowledgeArticle,
>
    decreases articles.len(),
{
    if articles.len() == 0 || next.len() == 0 {
        Seq::empty()
    } else {
        let front = retagged(articles.drop_last(), next.drop_last());
        if texts(articles.last().auto_tags@) == texts(next.last()@) {
            front
        } else {
            front.push(KnowledgeArticle { auto_tags: next.last(), ..articles.last() })
        }
    }
}

/// Sets the new tags; what is left are the articles that have changed by it.
pub fn changed_articles(articles: Vec<KnowledgeArticle>, next: Vec<Vec<String>>) -> (r: Vec<
    KnowledgeArticle,
>)
    requires
        articles@.len() == next@.len(),
    ensures
        r@ == retagged(articles@, next@),
{
    let ghost all = articles@;
    let ghost tags = next@;
    let mut rest: Vec<KnowledgeArticle> = articles;
    let mut left: Vec<Vec<String>> = next;
    let mut out: Vec<KnowledgeArticle> = Vec::new();
    let ghost mut done: int = 0;
    proof {
        assert(all.subrange(0, all.len() as int) =~= all);
        assert(tags.subrange(0, tags.len() as int) =~= tags);
    }
    while rest.len() > 0
        invariant
            0 <= done <= all.len(),
            all.len() == tags.len(),
            rest@ == all.subrange(done, all.len() as int),
            left@ == tags.subrange(done, tags.len() as int),
            out@ == retagged(all.subrange(0, done), tags.subrange(0, done)),
        decreases rest@.len(),
    {
        let mut article: KnowledgeArticle = rest.remove(0);
        let list: Vec<String> = left.remove(0);
        proof {
            assert(article == all[done]);
            assert(list == tags[done]);
            assert(all.subrange(0, done + 1).drop_last() =~= all.subrange(0, done));
            assert(tags.subrange(0, done + 1).drop_last() =~= tags.subrange(0, done));
            assert(all.subrange(0, done + 1).last() == article);
            assert(tags.subrange(0, done + 1).last() == list);
            done = done + 1;
            assert(rest@ =~= all.subrange(done, all.len() as int));
            assert(left@ =~= tags.subrange(done, tags.len() as int));
        }
        if !same_tags(&list, &article.auto_tags) {
            article.auto_tags = list;
            out.push(article);
        }
    }
    proof {
        assert(all.subrange(0, done) =~= all);
        assert(tags.subrange(0, done) =~= tags);
    }
    out
}

// --- tags from a language model ---

#[derive(Debug, Clone, PartialEq, Eq)]
pub struct LlmTagConfig {
    pub enabled: bool,
    pub endpoint: String,
    pub model: String,
    pub timeout_seconds: u64,
}

/// Whether the language model is asked for the tags of an article: it is
/// switched on and set up, and the article has a body.
pub fn wants_llm_tags(config: &LlmTagConfig, content: &str) -> (r: bool)
    ensures
        r == (config.enabled && !is_blank(config.endpoint@) && !is_blank(config.model@)
            && !is_blank(content@)),
{
    config.enabled && !blank(config.endpoint.as_str()) && !blank(config.model.as_str()) && !blank(
        content,
    )
}

/// A text without the slashes at its end.
pub open spec fn without_end_slashes(s: Seq<char>) -> Seq<char>
    decreases s.len(),
{
    if s.len() > 0 && s.last() == '/' {
        without_end_slashes(s.drop_last())
    } else {
        s
    }
}

/// Where the language model is asked.
pub fn llm_tag_endpoint(endpoint: &str) -> (r: String)
    ensures
        r@ == without_end_slashes(endpoint@) + "/api/generate"@,
{
    let v: Vec<char> = chars_of(endpoint);
    let mut n: usize = v.len();
    assert(v@.subrange(0, n as int) =~= endpoint@);
    while n > 0 && v[n - 1] == '/'
        invariant
            n <= v@.len(),
            without_end_slashes(v@.subrange(0, n as int)) == without_end_slashes(endpoint@),
        decreases n,
    {
        proof {
            assert(v@.subrange(0, n as int).drop_last() =~= v@.subrange(0, n - 1));
        }
        n -= 1;
    }
    let front: String = slice_string(&v, 0, n);
    joined(front.as_str(), "/api/generate")
}

pub open spec fn llm_prompt(title: Seq<char>, summary: Seq<char>, body: Seq<char>) -> Seq<char> {
    "Return 3 to 7 topical tags for this article as a JSON array of lowercase strings. Tags must be at most two words each.\n\nTitle: "@
        + title + "\nSummary: "@ + summary + "\nBody:\n"@ + stripped(body).0
}

/// What the language model is asked.
pub fn render_llm_tag_prompt(article: &KnowledgeArticle) -> (r: String)
    ensures
        r@ == llm_prompt(
            article.record.short_description@,
            article.record.description@,
            article.content@,
        ),
{
    let mut out: String =
        "Return 3 to 7 topical tags for this article as a JSON array of lowercase strings. Tags must be at most two words each.\n\nTitle: ".to_owned();
    out.append(article.record.short_description.as_str());
    out.append("\nSummary: ");
    out.append(article.record.description.as_str());
    out.append("\nBody:\n");
    let body: String = strip_html(article.content.as_str());
    out.append(body.as_str());
    out
}

} // verus!
