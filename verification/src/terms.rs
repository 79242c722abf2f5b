//! Words of knowledge articles, how many articles hold each, and the tags that
//! are derived from them.
use vstd::prelude::*;
use vstd::string::*;

use crate::article::KnowledgeArticle;
use crate::listing::{
    ascending, insert_ascending, lemma_filter_ends, lemma_filter_step, occurrences,
};
use crate::order::{sort, sorted, Ranked};
use crate::split::{pieces, split_text, Separator};
use crate::tags::tag_of;
use crate::text::{
    chars_of, lemma_text_order, lemma_texts_push, less_text, lower, lower_text, name_listed, names_of, same,
    text_less, texts, trim_text,
};

verus! {

/// Words too common to tell articles apart.
pub const KB_STOPWORDS: [&'static str; 31] = [
    "a",
    "an",
    "and",
    "are",
    "article",
    "articles",
    "as",
    "at",
    "be",
    "by",
    "for",
    "from",
    "how",
    "in",
    "into",
    "is",
    "it",
    "its",
    "kb",
    "knowledge",
    "of",
    "on",
    "or",
    "servicenow",
    "that",
    "the",
    "this",
    "to",
    "using",
    "with",
    "workflow",
];

/// A text without what stands between angle brackets, and whether it ends
/// inside such a bracket. A closing bracket leaves a space behind.
pub open spec fn stripped(s: Seq<char>) -> (Seq<char>, bool)
    decreases s.len(),
{
    if s.len() == 0 {
        (Seq::empty(), false)
    } else {
        let (text, inside) = stripped(s.drop_last());
        if s.last() == '<' {
            (text, true)
        } else if s.last() == '>' {
            (text.push(' '), false)
        } else if inside {
            (text, true)
        } else {
            (text.push(s.last()), false)
        }
    }
}

pub fn strip_html(input: &str) -> (r: String)
    ensures
        r@ == stripped(input@).0,
{
    let v: Vec<char> = chars_of(input);
    let mut out: String = String::new();
    let mut inside: bool = false;
    let mut i: usize = 0;
    assert(out@ =~= Seq::<char>::empty());
    while i < v.len()
        invariant
            i <= v@.len(),
            (out@, inside) == stripped(v@.subrange(0, i as int)),
        decreases v@.len() - i,
    {
        let c: char = v[i];
        proof {
            let longer = v@.subrange(0, i + 1);
            assert(longer.drop_last() =~= v@.subrange(0, i as int));
            assert(longer.last() == c);
        }
        if c == '<' {
            inside = true;
        } else if c == '>' {
            inside = false;
            out.push(' ');
        } else if !inside {
            out.push(c);
        }
        i += 1;
    }
    assert(v@.subrange(0, i as int) =~= input@);
    out
}

/// Text without brackets stays as it is.
pub proof fn plain_text_is_not_stripped(s: Seq<char>)
    requires
        forall|i: int| 0 <= i < s.len() ==> #[trigger] s[i] != '<' && s[i] != '>',
    ensures
        stripped(s) == (s, false),
    decreases s.len(),
{
    if s.len() > 0 {
        let front = s.drop_last();
        assert forall|i: int| 0 <= i < front.len() implies #[trigger] front[i] != '<' && front[i]
            != '>' by {
            assert(front[i] == s[i]);
        }
        plain_text_is_not_stripped(front);
        assert(s[s.len() - 1] == s.last());
        assert(front.push(s.last()) =~= s);
    }
}

/// The text whose words count for an article: the title three times, the
/// summary twice, and the body without its markup.
pub open spec fn weighted_text(title: Seq<char>, summary: Seq<char>, body: Seq<char>) -> Seq<char> {
    let t = title.push(' ');
    let s = summary.push(' ');
    t + t + t + s + s + stripped(body).0
}

/// Whether a word counts: it has three letters or digits and is not too common.
pub open spec fn is_term() -> spec_fn(Seq<char>) -> bool {
    |w: Seq<char>| w.len() >= 3 && !names_of(KB_STOPWORDS@).contains(w)
}

/// The words that count in a text, in small letters, in their order.
pub open spec fn terms_in(text: Seq<char>) -> Seq<Seq<char>> {
    pieces(text, Separator::NonAlphanumeric).map_values(|w: Seq<char>| lower(w)).filter(is_term())
}

pub open spec fn article_terms(article: KnowledgeArticle) -> Seq<Seq<char>> {
    terms_in(
        weighted_text(
            article.record.short_description@,
            article.record.description@,
            article.content@,
        ),
    )
}

/// The words of an article that count.
pub fn tokenize_article(article: &KnowledgeArticle) -> (r: Vec<String>)
    ensures
        texts(r@) == article_terms(*article),
{
    let title: &str = article.record.short_description.as_str();
    let summary: &str = article.record.description.as_str();
    let body: String = strip_html(article.content.as_str());
    let mut text: String = String::new();
    text.append(title);
    text.push(' ');
    text.append(title);
    text.push(' ');
    text.append(title);
    text.push(' ');
    text.append(summary);
    text.push(' ');
    text.append(summary);
    text.push(' ');
    text.append(body.as_str());
    assert(text@ =~= weighted_text(title@, summary@, article.content@));
    let words: Vec<String> = split_text(text.as_str(), Separator::NonAlphanumeric);
    let ghost all = texts(words@).map_values(|w: Seq<char>| lower(w));
    let ghost keep = is_term();
    let mut out: Vec<String> = Vec::new();
    let mut i: usize = 0;
    proof {
        lemma_filter_ends(all, keep);
        assert(texts(out@) =~= all.subrange(0, 0).filter(keep));
    }
    while i < words.len()
        invariant
            i <= words@.len(),
            all == texts(words@).map_values(|w: Seq<char>| lower(w)),
            keep == is_term(),
            texts(out@) == all.subrange(0, i as int).filter(keep),
        decreases words@.len() - i,
    {
        let word: String = lower_text(words[i].as_str());
        proof {
            assert(word@ == all[i as int]);
            lemma_filter_step(all, keep, i as int);
        }
        if word.as_str().unicode_len() >= 3 && !name_listed(&KB_STOPWORDS, word.as_str()) {
            proof {
                lemma_texts_push(out@, word);
            }
            out.push(word);
        }
        i += 1;
    }
    assert(all.subrange(0, i as int) =~= all);
    out
}

/// The words of an article that count, each once, in order.
pub fn unique_terms_for_article(article: &KnowledgeArticle) -> (r: Vec<String>)
    ensures
        ascending(texts(r@)),
        forall|t: Seq<char>| #[trigger]
            texts(r@).contains(t) <==> article_terms(*article).contains(t),
{
    let words: Vec<String> = tokenize_article(article);
    let ghost all = texts(words@);
    let mut out: Vec<String> = Vec::new();
    let mut i: usize = 0;
    proof {
        crate::text::lemma_texts_empty();
    }
    while i < words.len()
        invariant
            i <= words@.len(),
            all == texts(words@),
            ascending(texts(out@)),
            forall|t: Seq<char>| #[trigger]
                texts(out@).contains(t) <==> all.subrange(0, i as int).contains(t),
        decreases words@.len() - i,
    {
        insert_ascending(&mut out, words[i].as_str());
        proof {
            let shorter = all.subrange(0, i as int);
            let longer = all.subrange(0, i + 1);
            assert(longer =~= shorter.push(all[i as int]));
            assert forall|t: Seq<char>| #[trigger] longer.contains(t) == (shorter.contains(t) || t
                == all[i as int]) by {
                if shorter.contains(t) {
                    let k = choose|k: int| 0 <= k < shorter.len() && shorter[k] == t;
                    assert(longer[k] == t);
                }
                if t == all[i as int] {
                    assert(longer[i as int] == t);
                }
            }
        }
        i += 1;
    }
    assert(all.subrange(0, i as int) =~= all);
    out
}

// --- in how many articles a word stands ---

/// A word and a number.
#[derive(Debug, Clone, PartialEq, Eq)]
pub struct TermCount {
    pub term: String,
    pub count: usize,
}

/// For each word, in how many articles it stands.
pub struct TermStats {
    pub entries: Vec<TermCount>,
}

pub open spec fn count_in(entries: Seq<TermCount>, t: Seq<char>) -> nat
    decreases entries.len(),
{
    if entries.len() == 0 {
        0
    } else {
        count_in(entries.drop_last(), t) + if entries.last().term@ == t {
            entries.last().count as nat
        } else {
            0nat
        }
    }
}

impl TermStats {
    /// The number for one word; a word that stands nowhere has none.
    pub open spec fn count(self, t: Seq<char>) -> nat {
        count_in(self.entries@, t)
    }

    /// No word stands in two entries, and no entry counts nothing.
    pub open spec fn wf(self) -> bool {
        &&& forall|i: int|
            0 <= i < self.entries@.len() ==> (#[trigger] self.entries@[i]).count > 0
        &&& forall|i: int, j: int|
            0 <= i < j < self.entries@.len() ==> (#[trigger] self.entries@[i]).term@ != (
            #[trigger] self.entries@[j]).term@
    }

    pub fn new() -> (r: TermStats)
        ensures
            r.wf(),
            forall|t: Seq<char>| #[trigger] r.count(t) == 0,
    {
        TermStats { entries: Vec::new() }
    }

    fn position(&self, term: &str) -> (r: Option<usize>)
        requires
            self.wf(),
        ensures
            match r {
                Some(i) => i < self.entries@.len() && self.entries@[i as int].term@ == term@
                    && self.count(term@) == self.entries@[i as int].count,
                None => self.count(term@) == 0 && forall|i: int|
                    0 <= i < self.entries@.len() ==> (#[trigger] self.entries@[i]).term@ != term@,
            },
    {
        let mut i: usize = 0;
        while i < self.entries.len()
            invariant
                i <= self.entries@.len(),
                self.wf(),
                forall|k: int| 0 <= k < i ==> (#[trigger] self.entries@[k]).term@ != term@,
            decreases self.entries@.len() - i,
        {
            if same(self.entries[i].term.as_str(), term) {
                proof {
                    assert forall|k: int|
                        0 <= k < self.entries@.len() && k != i implies (#[trigger] self.entries@[k]).term@
                            != term@ by {
                        if k > i {
                            assert(self.entries@[i as int].term@ != self.entries@[k].term@);
                        }
                    }
                    lemma_count_single(self.entries@, term@, i as int);
                }
                return Some(i);
            }
            i += 1;
        }
        proof {
            lemma_count_nothing(self.entries@, term@);
        }
        None
    }

    /// How many articles hold a word.
    pub fn get(&self, term: &str) -> (r: usize)
        requires
            self.wf(),
        ensures
            r == self.count(term@),
    {
        match self.position(term) {
            Some(i) => self.entries[i].count,
            None => 0,
        }
    }
}

proof fn lemma_count_nothing(entries: Seq<TermCount>, t: Seq<char>)
    requires
        forall|i: int| 0 <= i < entries.len() ==> (#[trigger] entries[i]).term@ != t,
    ensures
        count_in(entries, t) == 0,
    decreases entries.len(),
{
    if entries.len() > 0 {
        assert forall|i: int| 0 <= i < entries.drop_last().len() implies (
        #[trigger] entries.drop_last()[i]).term@ != t by {
            assert(entries.drop_last()[i] == entries[i]);
        }
        lemma_count_nothing(entries.drop_last(), t);
        assert(entries[entries.len() - 1].term@ != t);
    }
}

proof fn lemma_count_single(entries: Seq<TermCount>, t: Seq<char>, at: int)
    requires
        0 <= at < entries.len(),
        entries[at].term@ == t,
        forall|i: int| 0 <= i < entries.len() && i != at ==> (#[trigger] entries[i]).term@ != t,
    ensures
        count_in(entries, t) == entries[at].count,
    decreases entries.len(),
{
    let front = entries.drop_last();
    assert forall|i: int| 0 <= i < front.len() && i != at implies (#[trigger] front[i]).term@ != t by {
        assert(front[i] == entries[i]);
    }
    if at == entries.len() - 1 {
        lemma_count_nothing(front, t);
    } else {
        lemma_count_single(front, t, at);
        assert(entries[entries.len() - 1].term@ != t);
    }
}

proof fn lemma_count_update(entries: Seq<TermCount>, at: int, e: TermCount, t: Seq<char>)
    requires
        0 <= at < entries.len(),
        e.term@ == entries[at].term@,
    ensures
        count_in(entries.update(at, e), t) == count_in(entries, t) + if e.term@ == t {
            e.count - entries[at].count
        } else {
            0
        },
    decreases entries.len(),
{
    let after = entries.update(at, e);
    if at == entries.len() - 1 {
        assert(after.drop_last() =~= entries.drop_last());
    } else {
        assert(after.drop_last() =~= entries.drop_last().update(at, e));
        lemma_count_update(entries.drop_last(), at, e, t);
    }
}

proof fn lemma_count_remove(entries: Seq<TermCount>, at: int, t: Seq<char>)
    requires
        0 <= at < entries.len(),
    ensures
        count_in(entries.remove(at), t) == count_in(entries, t) - if entries[at].term@ == t {
            entries[at].count as int
        } else {
            0
        },
    decreases entries.len(),
{
    let after = entries.remove(at);
    if at == entries.len() - 1 {
        assert(after =~= entries.drop_last());
    } else {
        assert(after.drop_last() =~= entries.drop_last().remove(at));
        assert(after.last() == entries.last());
        lemma_count_remove(entries.drop_last(), at, t);
    }
}

/// The number of a word in rows that were kept: that of the last row for it.
pub open spec fn last_count(rows: Seq<TermCount>, t: Seq<char>) -> nat
    decreases rows.len(),
{
    if rows.len() == 0 {
        0
    } else if rows.last().term@ == t {
        rows.last().count as nat
    } else {
        last_count(rows.drop_last(), t)
    }
}

/// The numbers that were kept, whatever rows they were kept in.
pub fn kept_term_stats(rows: &Vec<TermCount>) -> (r: TermStats)
    ensures
        r.wf(),
        forall|t: Seq<char>| #[trigger] r.count(t) == last_count(rows@, t),
{
    let mut stats: TermStats = TermStats::new();
    let mut i: usize = 0;
    assert(rows@.subrange(0, 0) =~= Seq::<TermCount>::empty());
    while i < rows.len()
        invariant
            i <= rows@.len(),
            stats.wf(),
            forall|t: Seq<char>| #[trigger]
                stats.count(t) == last_count(rows@.subrange(0, i as int), t),
        decreases rows@.len() - i,
    {
        let ghost now = stats;
        let ghost row = rows@[i as int];
        let entry = TermCount { term: rows[i].term.clone(), count: rows[i].count };
        match stats.position(rows[i].term.as_str()) {
            Some(k) => if entry.count > 0 {
                stats.entries.set(k, entry);
                assert forall|t: Seq<char>| #[trigger] stats.count(t) == if t == row.term@ {
                    row.count as nat
                } else {
                    now.count(t)
                } by {
                    lemma_count_update(now.entries@, k as int, entry, t);
                }
            } else {
                stats.entries.remove(k);
                assert forall|t: Seq<char>| #[trigger] stats.count(t) == if t == row.term@ {
                    row.count as nat
                } else {
                    now.count(t)
                } by {
                    lemma_count_remove(now.entries@, k as int, t);
                }
            },
            None => if entry.count > 0 {
                stats.entries.push(entry);
                assert(stats.entries@.drop_last() =~= now.entries@);
            },
        }
        proof {
            let longer = rows@.subrange(0, i + 1);
            assert(longer.drop_last() =~= rows@.subrange(0, i as int));
            assert(longer.last() == row);
            assert forall|t: Seq<char>| #[trigger] stats.count(t) == last_count(longer, t) by {
                assert(now.count(t) == last_count(rows@.subrange(0, i as int), t));
            }
        }
        i += 1;
    }
    assert(rows@.subrange(0, i as int) =~= rows@);
    stats
}

/// Numbers that are kept and read again are the same numbers.
pub proof fn kept_numbers_come_back(stats: TermStats, t: Seq<char>)
    requires
        stats.wf(),
    ensures
        last_count(stats.entries@, t) == stats.count(t),
{
    lemma_last_is_only(stats.entries@, t);
}

proof fn lemma_last_is_only(entries: Seq<TermCount>, t: Seq<char>)
    requires
        forall|i: int, j: int|
            0 <= i < j < entries.len() ==> (#[trigger] entries[i]).term@ != (
            #[trigger] entries[j]).term@,
    ensures
        last_count(entries, t) == count_in(entries, t),
    decreases entries.len(),
{
    if entries.len() > 0 {
        let front = entries.drop_last();
        assert forall|i: int, j: int| 0 <= i < j < front.len() implies (
        #[trigger] front[i]).term@ != (#[trigger] front[j]).term@ by {
            assert(front[i] == entries[i] && front[j] == entries[j]);
        }
        if entries.last().term@ == t {
            assert forall|i: int| 0 <= i < front.len() implies (#[trigger] front[i]).term@ != t by {
                assert(entries[i].term@ != entries[entries.len() - 1].term@);
            }
            lemma_count_nothing(front, t);
        } else {
            lemma_last_is_only(front, t);
        }
    }
}

/// What the number of each word becomes when the words of an article are added.
pub open spec fn is_incremented(after: TermStats, before: TermStats, terms: Seq<Seq<char>>) -> bool {
    forall|t: Seq<char>| #[trigger] after.count(t) == before.count(t) + occurrences(terms, t)
}

/// What the number of each word becomes when the words of an article are taken
/// away; no number goes below nothing.
pub open spec fn is_decremented(after: TermStats, before: TermStats, terms: Seq<Seq<char>>) -> bool {
    forall|t: Seq<char>| #[trigger]
        after.count(t) == if before.count(t) >= occurrences(terms, t) {
            (before.count(t) - occurrences(terms, t)) as nat
        } else {
            0
        }
}

/// Counts one more article, with the given words.
pub fn increment_term_stats(stats: &mut TermStats, terms: &Vec<String>)
    requires
        old(stats).wf(),
        forall|t: Seq<char>| #[trigger]
            old(stats).count(t) + occurrences(texts(terms@), t) <= usize::MAX,
    ensures
        final(stats).wf(),
        is_incremented(*final(stats), *old(stats), texts(terms@)),
{
    let ghost before = *stats;
    let ghost all = texts(terms@);
    let mut i: usize = 0;
    assert(all.subrange(0, 0) =~= Seq::<Seq<char>>::empty());
    while i < terms.len()
        invariant
            i <= terms@.len(),
            all == texts(terms@),
            stats.wf(),
            forall|t: Seq<char>| #[trigger] before.count(t) + occurrences(all, t) <= usize::MAX,
            is_incremented(*stats, before, all.subrange(0, i as int)),
        decreases terms@.len() - i,
    {
        let ghost now = *stats;
        let ghost w = terms@[i as int]@;
        let at: Option<usize> = stats.position(terms[i].as_str());
        proof {
            let longer = all.subrange(0, i + 1);
            assert(longer.drop_last() =~= all.subrange(0, i as int));
            assert(longer.last() == w);
            lemma_occurrences_grow(all, i + 1, w);
            assert(before.count(w) + occurrences(all, w) <= usize::MAX);
            assert(now.count(w) == before.count(w) + occurrences(all.subrange(0, i as int), w));
        }
        match at {
            Some(k) => {
                let count: usize = stats.entries[k].count;
                let term: String = stats.entries[k].term.clone();
                let entry = TermCount { term, count: count + 1 };
                stats.entries.set(k, entry);
                proof {
                    assert forall|t: Seq<char>| #[trigger] stats.count(t) == now.count(t) + if t
                        == w {
                        1nat
                    } else {
                        0nat
                    } by {
                        lemma_count_update(now.entries@, k as int, entry, t);
                    }
                }
            },
            None => {
                let entry = TermCount { term: terms[i].clone(), count: 1 };
                stats.entries.push(entry);
                assert(stats.entries@.drop_last() =~= now.entries@);
            },
        }
        proof {
            assert forall|t: Seq<char>| #[trigger]
                stats.count(t) == before.count(t) + occurrences(all.subrange(0, i + 1), t) by {
                assert(now.count(t) == before.count(t) + occurrences(
                    all.subrange(0, i as int),
                    t,
                ));
            }
        }
        i += 1;
    }
    assert(all.subrange(0, i as int) =~= all);
}

proof fn lemma_occurrences_grow(terms: Seq<Seq<char>>, k: int, t: Seq<char>)
    requires
        0 <= k <= terms.len(),
    ensures
        occurrences(terms.subrange(0, k), t) <= occurrences(terms, t),
    decreases terms.len(),
{
    if k == terms.len() {
        assert(terms.subrange(0, k) =~= terms);
    } else {
        lemma_occurrences_grow(terms.drop_last(), k, t);
        assert(terms.drop_last().subrange(0, k) =~= terms.subrange(0, k));
    }
}

/// Counts one article less, with the given words.
pub fn decrement_term_stats(stats: &mut TermStats, terms: &Vec<String>)
    requires
        old(stats).wf(),
    ensures
        final(stats).wf(),
        is_decremented(*final(stats), *old(stats), texts(terms@)),
{
    let ghost before = *stats;
    let ghost all = texts(terms@);
    let mut i: usize = 0;
    assert(all.subrange(0, 0) =~= Seq::<Seq<char>>::empty());
    while i < terms.len()
        invariant
            i <= terms@.len(),
            all == texts(terms@),
            stats.wf(),
            is_decremented(*stats, before, all.subrange(0, i as int)),
        decreases terms@.len() - i,
    {
        let ghost now = *stats;
        let ghost w = terms@[i as int]@;
        let at: Option<usize> = stats.position(terms[i].as_str());
        proof {
            let longer = all.subrange(0, i + 1);
            assert(longer.drop_last() =~= all.subrange(0, i as int));
            assert(longer.last() == w);
        }
        if let Some(k) = at {
            let count: usize = stats.entries[k].count;
            if count > 1 {
                let term: String = stats.entries[k].term.clone();
                let entry = TermCount { term, count: count - 1 };
                stats.entries.set(k, entry);
                proof {
                    assert forall|t: Seq<char>| #[trigger] stats.count(t) == now.count(t) - if t
                        == w {
                        1int
                    } else {
                        0int
                    } by {
                        lemma_count_update(now.entries@, k as int, entry, t);
                    }
                }
            } else {
                stats.entries.remove(k);
                proof {
                    assert forall|t: Seq<char>| #[trigger] stats.count(t) == now.count(t) - if t
                        == w {
                        1int
                    } else {
                        0int
                    } by {
                        lemma_count_remove(now.entries@, k as int, t);
                    }
                }
            }
        }
        proof {
            assert forall|t: Seq<char>| #[trigger]
                stats.count(t) == if before.count(t) >= occurrences(all.subrange(0, i + 1), t) {
                    (before.count(t) - occurrences(all.subrange(0, i + 1), t)) as nat
                } else {
                    0
                } by {
                assert(now.count(t) == if before.count(t) >= occurrences(
                    all.subrange(0, i as int),
                    t,
                ) {
                    (before.count(t) - occurrences(all.subrange(0, i as int), t)) as nat
                } else {
                    0
                });
            }
        }
        i += 1;
    }
    assert(all.subrange(0, i as int) =~= all);
}

/// The words of one article.
#[derive(Debug, Clone, PartialEq, Eq)]
pub struct ArticleTerms {
    pub sys_id: String,
    pub terms: Vec<String>,
}

/// How often a word stands in all the lists together.
pub open spec fn total_occurrences(entries: Seq<ArticleTerms>, t: Seq<char>) -> nat
    decreases entries.len(),
{
    if entries.len() == 0 {
        0
    } else {
        total_occurrences(entries.drop_last(), t) + occurrences(texts(entries.last().terms@), t)
    }
}

/// The numbers for a list of articles.
pub fn term_stats_from_entries(entries: &Vec<ArticleTerms>) -> (r: TermStats)
    requires
        forall|t: Seq<char>| #[trigger] total_occurrences(entries@, t) <= usize::MAX,
    ensures
        r.wf(),
        forall|t: Seq<char>| #[trigger] r.count(t) == total_occurrences(entries@, t),
{
    let mut stats: TermStats = TermStats::new();
    let mut i: usize = 0;
    assert(entries@.subrange(0, 0) =~= Seq::<ArticleTerms>::empty());
    while i < entries.len()
        invariant
            i <= entries@.len(),
            stats.wf(),
            forall|t: Seq<char>| #[trigger] total_occurrences(entries@, t) <= usize::MAX,
            forall|t: Seq<char>| #[trigger]
                stats.count(t) == total_occurrences(entries@.subrange(0, i as int), t),
        decreases entries@.len() - i,
    {
        let ghost now = stats;
        proof {
            let longer = entries@.subrange(0, i + 1);
            assert(longer.drop_last() =~= entries@.subrange(0, i as int));
            assert(longer.last() == entries@[i as int]);
            assert forall|t: Seq<char>| #[trigger]
                stats.count(t) + occurrences(texts(entries@[i as int].terms@), t)
                    <= usize::MAX by {
                lemma_total_grows(entries@, i + 1, t);
                assert(total_occurrences(entries@, t) <= usize::MAX);
            }
        }
        increment_term_stats(&mut stats, &entries[i].terms);
        proof {
            assert forall|t: Seq<char>| #[trigger]
                stats.count(t) == total_occurrences(entries@.subrange(0, i + 1), t) by {
                assert(now.count(t) == total_occurrences(entries@.subrange(0, i as int), t));
            }
        }
        i += 1;
    }
    assert(entries@.subrange(0, i as int) =~= entries@);
    stats
}

proof fn lemma_total_grows(entries: Seq<ArticleTerms>, k: int, t: Seq<char>)
    requires
        0 <= k <= entries.len(),
    ensures
        total_occurrences(entries.subrange(0, k), t) <= total_occurrences(entries, t),
    decreases entries.len(),
{
    if k == entries.len() {
        assert(entries.subrange(0, k) =~= entries);
    } else {
        lemma_total_grows(entries.drop_last(), k, t);
        assert(entries.drop_last().subrange(0, k) =~= entries.subrange(0, k));
    }
}

/// Taking away the words of an article undoes counting them.
pub proof fn decrementing_undoes_incrementing(
    before: TermStats,
    counted: TermStats,
    after: TermStats,
    terms: Seq<Seq<char>>,
)
    requires
        is_incremented(counted, before, terms),
        is_decremented(after, counted, terms),
    ensures
        forall|t: Seq<char>| #[trigger] after.count(t) == before.count(t),
{
    assert forall|t: Seq<char>| #[trigger] after.count(t) == before.count(t) by {
        assert(counted.count(t) == before.count(t) + occurrences(terms, t));
    }
}

/// Where the numbers are those of a list of articles, and the words of one of
/// them are taken away and its new words counted, the numbers are those of the
/// list with the article in its new state: counting anew would give the same.
pub proof fn recounting_one_article_is_enough(
    entries: Seq<ArticleTerms>,
    at: int,
    fresh: ArticleTerms,
    before: TermStats,
    between: TermStats,
    after: TermStats,
)
    requires
        0 <= at < entries.len(),
        forall|t: Seq<char>| #[trigger] before.count(t) == total_occurrences(entries, t),
        is_decremented(between, before, texts(entries[at].terms@)),
        is_incremented(after, between, texts(fresh.terms@)),
    ensures
        forall|t: Seq<char>| #[trigger]
            after.count(t) == total_occurrences(entries.update(at, fresh), t),
{
    assert forall|t: Seq<char>| #[trigger]
        after.count(t) == total_occurrences(entries.update(at, fresh), t) by {
        lemma_total_update(entries, at, fresh, t);
        assert(before.count(t) == total_occurrences(entries, t));
        assert(after.count(t) == between.count(t) + occurrences(texts(fresh.terms@), t));
    }
}

proof fn lemma_total_update(entries: Seq<ArticleTerms>, at: int, fresh: ArticleTerms, t: Seq<char>)
    requires
        0 <= at < entries.len(),
    ensures
        total_occurrences(entries.update(at, fresh), t) == total_occurrences(entries, t)
            - occurrences(texts(entries[at].terms@), t) + occurrences(texts(fresh.terms@), t),
        total_occurrences(entries, t) >= occurrences(texts(entries[at].terms@), t),
    decreases entries.len(),
{
    let after = entries.update(at, fresh);
    if at == entries.len() - 1 {
        assert(after.drop_last() =~= entries.drop_last());
    } else {
        assert(after.drop_last() =~= entries.drop_last().update(at, fresh));
        lemma_total_update(entries.drop_last(), at, fresh, t);
    }
}

// --- tags from the words of an article ---

/// A word that may become a tag: how often it stands in the article, and in how
/// many articles.
#[derive(Debug, Clone, PartialEq, Eq)]
pub struct TagCandidate {
    pub term: String,
    pub count: usize,
    pub articles: usize,
}

/// In how many articles a word counts as standing: at least in this one.
pub open spec fn articles_with(stats: TermStats, t: Seq<char>) -> nat {
    if stats.count(t) == 0 {
        1
    } else {
        stats.count(t)
    }
}

/// Whether a word is kept from becoming a tag, since the provider has it as one.
pub open spec fn is_blocked(article: KnowledgeArticle, t: Seq<char>) -> bool {
    exists|i: int| 0 <= i < article.sn_tags@.len() && tag_of(#[trigger] article.sn_tags@[i]@) == t
}

fn blocked(article: &KnowledgeArticle, term: &str) -> (r: bool)
    ensures
        r == is_blocked(*article, term@),
{
    let mut i: usize = 0;
    while i < article.sn_tags.len()
        invariant
            i <= article.sn_tags@.len(),
            forall|k: int| 0 <= k < i ==> tag_of(#[trigger] article.sn_tags@[k]@) != term@,
        decreases article.sn_tags@.len() - i,
    {
        let trimmed: String = trim_text(article.sn_tags[i].as_str());
        let tag: String = lower_text(trimmed.as_str());
        if same(tag.as_str(), term) {
            return true;
        }
        i += 1;
    }
    false
}

fn count_term(words: &Vec<String>, term: &str) -> (r: usize)
    ensures
        r == occurrences(texts(words@), term@),
{
    let ghost all = texts(words@);
    let mut n: usize = 0;
    let mut i: usize = 0;
    assert(all.subrange(0, 0) =~= Seq::<Seq<char>>::empty());
    while i < words.len()
        invariant
            i <= words@.len(),
            n <= i,
            all == texts(words@),
            n == occurrences(all.subrange(0, i as int), term@),
        decreases words@.len() - i,
    {
        proof {
            let longer = all.subrange(0, i + 1);
            assert(longer.drop_last() =~= all.subrange(0, i as int));
            assert(longer.last() == words@[i as int]@);
        }
        if same(words[i].as_str(), term) {
            n += 1;
        }
        i += 1;
    }
    assert(all.subrange(0, i as int) =~= all);
    n
}

pub open spec fn candidate_terms(candidates: Seq<TagCandidate>) -> Seq<Seq<char>> {
    candidates.map_values(|c: TagCandidate| c.term@)
}

/// The words of an article that may become tags, in order, each once.
pub fn auto_tag_candidates(article: &KnowledgeArticle, stats: &TermStats) -> (r: Vec<TagCandidate>)
    requires
        stats.wf(),
    ensures
        ascending(candidate_terms(r@)),
        forall|t: Seq<char>| #[trigger]
            candidate_terms(r@).contains(t) <==> article_terms(*article).contains(t) && !is_blocked(
                *article,
                t,
            ),
        forall|i: int|
            0 <= i < r@.len() ==> (#[trigger] r@[i]).count == occurrences(
                article_terms(*article),
                r@[i].term@,
            ) && r@[i].articles == articles_with(*stats, r@[i].term@),
{
    let words: Vec<String> = tokenize_article(article);
    let distinct: Vec<String> = unique_terms_for_article(article);
    let ghost names = texts(distinct@);
    let mut out: Vec<TagCandidate> = Vec::new();
    let mut i: usize = 0;
    assert(candidate_terms(out@) =~= Seq::<Seq<char>>::empty());
    while i < distinct.len()
        invariant
            i <= distinct@.len(),
            names == texts(distinct@),
            stats.wf(),
            texts(words@) == article_terms(*article),
            ascending(names),
            ascending(candidate_terms(out@)),
            forall|t: Seq<char>| #[trigger]
                candidate_terms(out@).contains(t) <==> names.subrange(0, i as int).contains(t)
                    && !is_blocked(*article, t),
            forall|k: int|
                0 <= k < out@.len() ==> (#[trigger] out@[k]).count == occurrences(
                    article_terms(*article),
                    out@[k].term@,
                ) && out@[k].articles == articles_with(*stats, out@[k].term@),
        decreases distinct@.len() - i,
    {
        let term: &str = distinct[i].as_str();
        let ghost before = candidate_terms(out@);
        let ghost shorter = names.subrange(0, i as int);
        let ghost longer = names.subrange(0, i + 1);
        proof {
            assert(names[i as int] == term@);
            assert forall|t: Seq<char>| #[trigger] longer.contains(t) == (shorter.contains(t) || t
                == term@) by {
                if shorter.contains(t) {
                    let k = choose|k: int| 0 <= k < shorter.len() && shorter[k] == t;
                    assert(longer[k] == t);
                }
                if t == term@ {
                    assert(longer[i as int] == t);
                }
                if longer.contains(t) {
                    let k = choose|k: int| 0 <= k < longer.len() && longer[k] == t;
                    if k < i {
                        assert(shorter[k] == t);
                    }
                }
            }
        }
        if !blocked(article, term) {
            let held: usize = stats.get(term);
            let articles: usize = if held == 0 {
                1
            } else {
                held
            };
            let count: usize = count_term(&words, term);
            out.push(TagCandidate { term: term.to_owned(), count, articles });
            proof {
                let after = candidate_terms(out@);
                assert(after =~= before.push(term@));
                assert forall|t: Seq<char>| #[trigger] after.contains(t) == (before.contains(t) || t
                    == term@) by {
                    if before.contains(t) {
                        let k = choose|k: int| 0 <= k < before.len() && before[k] == t;
                        assert(after[k] == t);
                    }
                    if t == term@ {
                        assert(after[before.len() as int] == t);
                    }
                }
                assert forall|a: int, b: int| 0 <= a < b < after.len() implies text_less(
                    #[trigger] after[a],
                    #[trigger] after[b],
                ) by {
                    if b == before.len() {
                        assert(before.contains(before[a]));
                        assert(candidate_terms(out@.drop_last()) =~= before);
                        assert(shorter.contains(after[a]));
                        let k = choose|k: int| 0 <= k < shorter.len() && shorter[k] == after[a];
                        assert(names[k] == after[a]);
                        assert(text_less(names[k], names[i as int]));
                    } else {
                        assert(after[a] == before[a] && after[b] == before[b]);
                    }
                }
            }
        }
        i += 1;
    }
    assert(names.subrange(0, i as int) =~= names);
    out
}

/// A candidate with its score. The score is an integer that orders as the
/// weight of the word does.
#[derive(Debug, Clone, PartialEq, Eq)]
pub struct ScoredTerm {
    pub term: String,
    pub count: usize,
    pub score: i64,
}

/// Higher scores come first, then higher counts, then the earlier word.
impl Ranked for ScoredTerm {
    open spec fn before(self, other: Self) -> bool {
        self.score > other.score || (self.score == other.score && (self.count > other.count || (
        self.count == other.count && text_less(self.term@, other.term@))))
    }

    proof fn rank_laws(a: Self, b: Self, c: Self) {
        lemma_text_order(a.term@, b.term@, c.term@);
    }

    fn precedes(&self, other: &Self) -> (r: bool) {
        self.score > other.score || (self.score == other.score && (self.count > other.count || (
        self.count == other.count && less_text(self.term.as_str(), other.term.as_str()))))
    }
}

/// The words of the best candidates, at most `most` and, where there is any,
/// at least one.
pub open spec fn best_terms(scored: Seq<ScoredTerm>, most: int) -> Seq<Seq<char>> {
    let n: int = if most < 1 {
        1
    } else {
        most
    };
    let all = sorted(scored).map_values(|s: ScoredTerm| s.term@);
    if all.len() <= n {
        all
    } else {
        all.subrange(0, n)
    }
}

/// Picks the tags of an article among its scored candidates. In an empty corpus
/// nothing stands out, and there are none.
pub fn derive_auto_tags_with_stats(
    scored: Vec<ScoredTerm>,
    corpus_size: usize,
    max_auto_tags: usize,
) -> (r: Vec<String>)
    ensures
        texts(r@) == (if corpus_size == 0 {
            Seq::empty()
        } else {
            best_terms(scored@, max_auto_tags as int)
        }),
{
    let most: usize = max_auto_tags;
    if corpus_size == 0 {
        proof {
            crate::text::lemma_texts_empty();
        }
        return Vec::new();
    }
    let mut ranked: Vec<ScoredTerm> = sort(scored);
    let ghost all = sorted(scored@);
    let n: usize = if most < 1 {
        1
    } else {
        most
    };
    let mut out: Vec<String> = Vec::new();
    proof {
        assert(all.subrange(0, all.len() as int) =~= all);
        assert(texts(out@) =~= all.subrange(0, 0).map_values(|s: ScoredTerm| s.term@));
    }
    while ranked.len() > 0 && out.len() < n
        invariant
            1 <= n,
            out@.len() <= n,
            out@.len() <= all.len(),
            ranked@ == all.subrange(out@.len() as int, all.len() as int),
            texts(out@) == all.subrange(0, out@.len() as int).map_values(|s: ScoredTerm| s.term@),
        decreases ranked@.len(),
    {
        let best: ScoredTerm = ranked.remove(0);
        let ghost done = out@.len() as int;
        proof {
            assert(best == all[done]);
            lemma_texts_push(out@, best.term);
        }
        out.push(best.term);
        proof {
            assert(all.subrange(0, done + 1).map_values(|s: ScoredTerm| s.term@) =~= all.subrange(
                0,
                done,
            ).map_values(|s: ScoredTerm| s.term@).push(best.term@));
            assert(ranked@ =~= all.subrange(done + 1, all.len() as int));
        }
    }
    proof {
        let names = all.map_values(|s: ScoredTerm| s.term@);
        assert(all.subrange(0, out@.len() as int).map_values(|s: ScoredTerm| s.term@)
            =~= names.subrange(0, out@.len() as int));
        assert(names.subrange(0, names.len() as int) =~= names);
    }
    out
}

/// The tags that are kept for an article: those of the language model where it
/// proposed any list, else those from its words.
pub fn next_auto_tags(derived: Vec<String>, proposed: Option<Vec<String>>) -> (r: Vec<String>)
    ensures
        r == (match proposed {
            Some(tags) => tags,
            None => derived,
        }),
{
    match proposed {
        Some(tags) => tags,
        None => derived,
    }
}

/// Whether two lists hold the same tags in the same order.
pub fn same_tags(a: &Vec<String>, b: &Vec<String>) -> (r: bool)
    ensures
        r == (texts(a@) == texts(b@)),
{
    if a.len() != b.len() {
        assert(texts(a@).len() != texts(b@).len());
        return false;
    }
    let mut i: usize = 0;
    while i < a.len()
        invariant
            i <= a@.len(),
            a@.len() == b@.len(),
            forall|k: int| 0 <= k < i ==> texts(a@)[k] == #[trigger] texts(b@)[k],
        decreases a@.len() - i,
    {
        if !same(a[i].as_str(), b[i].as_str()) {
            proof {
                assert(texts(a@)[i as int] != texts(b@)[i as int]);
            }
            return false;
        }
        i += 1;
    }
    assert(texts(a@) =~= texts(b@));
    true
}

} // verus!
