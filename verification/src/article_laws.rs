//! Laws of the articles: their words, their tags, and what is kept of them.
use vstd::prelude::*;

use crate::article::{
    article_reference_map, first_few, is_relabelled, kept_auto_tags, kept_content, kept_user_tags,
    listing_of, passes, reference_map, shown_label, was_cached, ArticleReferences,
    KnowledgeArticle, KnownArticle,
};
use crate::listing::{lemma_filter_keeps, occurrences};
use crate::order::{sorted, sorting_orders, Ranked};
use crate::row::RowView;
use crate::split::{pieces, Separator};
use crate::tags::{
    field_values, layer_tags, present, provider_tags, tag_of, tag_text, top_tags, value_tags,
    with_tags, KnowledgeTagLayer, TagValueView, KB_SN_TAG_FIELDS,
};
use crate::terms::{
    articles_with, article_terms, best_terms, count_in, is_blocked, is_decremented, is_incremented,
    is_term, last_count, stripped, terms_in, total_occurrences, weighted_text, ArticleTerms,
    ScoredTerm, TermCount, TermStats, KB_STOPWORDS,
};
use crate::text::{lower, names_of, text_less, text_of, texts, trim};
use crate::types::{NamedField, NamedReference, Reference};

verus! {

/// Markup is taken out of a text: what stands between angle brackets goes, and a blank
/// comes in its place; what stands outside stays.
pub proof fn markup_is_taken_out(a: Seq<char>, inside: Seq<char>, b: Seq<char>)
    requires
        !stripped(a).1,
        forall|i: int| 0 <= i < inside.len() ==> #[trigger] inside[i] != '<' && inside[i] != '>',
        forall|i: int| 0 <= i < b.len() ==> #[trigger] b[i] != '<' && b[i] != '>',
    ensures
        stripped(a.push('<') + inside + seq!['>'] + b).0 == stripped(a).0.push(' ') + b,
        !stripped(a.push('<') + inside + seq!['>'] + b).1,
    decreases inside.len() + b.len(),
{
    let whole = a.push('<') + inside + seq!['>'] + b;
    if b.len() > 0 {
        let c = b.drop_last();
        assert forall|i: int| 0 <= i < c.len() implies #[trigger] c[i] != '<' && c[i] != '>' by {
            assert(c[i] == b[i]);
        }
        markup_is_taken_out(a, inside, c);
        assert(whole.drop_last() =~= a.push('<') + inside + seq!['>'] + c);
        assert(whole.last() == b[b.len() - 1]);
        assert(stripped(whole).0 =~= stripped(a).0.push(' ') + b);
    } else {
        lemma_inside(a, inside);
        assert(whole.drop_last() =~= a.push('<') + inside);
        assert(whole.last() == '>');
        assert(stripped(a).0.push(' ') + b =~= stripped(a).0.push(' '));
    }
}

proof fn lemma_inside(a: Seq<char>, inside: Seq<char>)
    requires
        forall|i: int| 0 <= i < inside.len() ==> #[trigger] inside[i] != '<' && inside[i] != '>',
    ensures
        stripped(a.push('<') + inside) == (stripped(a).0, true),
    decreases inside.len(),
{
    let whole = a.push('<') + inside;
    if inside.len() == 0 {
        assert(whole =~= a.push('<'));
        assert(whole.drop_last() =~= a);
    } else {
        let c = inside.drop_last();
        assert forall|i: int| 0 <= i < c.len() implies #[trigger] c[i] != '<' && c[i] != '>' by {
            assert(c[i] == inside[i]);
        }
        lemma_inside(a, c);
        assert(whole.drop_last() =~= a.push('<') + c);
        assert(whole.last() == inside[inside.len() - 1]);
    }
}

/// A word counts where it has at least three characters and is none of the common ones.
pub proof fn common_words_do_not_count(w: Seq<char>, i: int)
    ensures
        is_term()(w) <==> w.len() >= 3 && forall|k: int|
            0 <= k < 31 ==> w != (#[trigger] KB_STOPWORDS@[k])@,
        KB_STOPWORDS@.len() == 31,
        KB_STOPWORDS@[0]@ == "a"@,
        KB_STOPWORDS@[1]@ == "an"@,
        KB_STOPWORDS@[2]@ == "and"@,
        KB_STOPWORDS@[3]@ == "are"@,
        KB_STOPWORDS@[4]@ == "article"@,
        KB_STOPWORDS@[5]@ == "articles"@,
        KB_STOPWORDS@[6]@ == "as"@,
        KB_STOPWORDS@[7]@ == "at"@,
        KB_STOPWORDS@[8]@ == "be"@,
        KB_STOPWORDS@[9]@ == "by"@,
        KB_STOPWORDS@[10]@ == "for"@,
        KB_STOPWORDS@[11]@ == "from"@,
        KB_STOPWORDS@[12]@ == "how"@,
        KB_STOPWORDS@[13]@ == "in"@,
        KB_STOPWORDS@[14]@ == "into"@,
        KB_STOPWORDS@[15]@ == "is"@,
        KB_STOPWORDS@[16]@ == "it"@,
        KB_STOPWORDS@[17]@ == "its"@,
        KB_STOPWORDS@[18]@ == "kb"@,
        KB_STOPWORDS@[19]@ == "knowledge"@,
        KB_STOPWORDS@[20]@ == "of"@,
        KB_STOPWORDS@[21]@ == "on"@,
        KB_STOPWORDS@[22]@ == "or"@,
        KB_STOPWORDS@[23]@ == "servicenow"@,
        KB_STOPWORDS@[24]@ == "that"@,
        KB_STOPWORDS@[25]@ == "the"@,
        KB_STOPWORDS@[26]@ == "this"@,
        KB_STOPWORDS@[27]@ == "to"@,
        KB_STOPWORDS@[28]@ == "using"@,
        KB_STOPWORDS@[29]@ == "with"@,
        KB_STOPWORDS@[30]@ == "workflow"@,
{
    let names = names_of(KB_STOPWORDS@);
    assert(names.len() == 31);
    if names.contains(w) {
        let k = names.index_of(w);
        assert(w == KB_STOPWORDS@[k]@);
    }
    if exists|k: int| 0 <= k < 31 && w == (#[trigger] KB_STOPWORDS@[k])@ {
        let k = choose|k: int| 0 <= k < 31 && w == (#[trigger] KB_STOPWORDS@[k])@;
        assert(names[k] == w);
    }
}

/// The words of a text are what stands between its other characters, in small letters.
pub proof fn words_stand_between_other_characters(text: Seq<char>, w: Seq<char>)
    ensures
        terms_in(text).contains(w) <==> is_term()(w) && exists|i: int|
            0 <= i < pieces(text, Separator::NonAlphanumeric).len() && lower(
                #[trigger] pieces(text, Separator::NonAlphanumeric)[i],
            ) == w,
{
    let parts = pieces(text, Separator::NonAlphanumeric);
    let small = parts.map_values(|w: Seq<char>| lower(w));
    lemma_filter_keeps(small, is_term());
    if small.contains(w) {
        let i = small.index_of(w);
        assert(lower(parts[i]) == w);
    }
    if exists|i: int| 0 <= i < parts.len() && lower(#[trigger] parts[i]) == w {
        let i = choose|i: int| 0 <= i < parts.len() && lower(#[trigger] parts[i]) == w;
        assert(small[i] == w);
    }
}

/// The title of an article counts three times, its summary twice, its body once and
/// without its markup; each stands apart from the next.
pub proof fn titles_weigh_most(title: Seq<char>, summary: Seq<char>, body: Seq<char>)
    ensures
        ({
            let w = weighted_text(title, summary, body);
            let t = title.len() as int;
            let s = summary.len() as int;
            &&& w.len() == 3 * (t + 1) + 2 * (s + 1) + stripped(body).0.len()
            &&& w.subrange(0, t) == title
            &&& w[t] == ' '
            &&& w.subrange(t + 1, 2 * t + 1) == title
            &&& w[2 * t + 1] == ' '
            &&& w.subrange(2 * t + 2, 3 * t + 2) == title
            &&& w[3 * t + 2] == ' '
            &&& w.subrange(3 * t + 3, 3 * t + 3 + s) == summary
            &&& w[3 * t + 3 + s] == ' '
            &&& w.subrange(3 * t + 4 + s, 3 * t + 4 + 2 * s) == summary
            &&& w[3 * t + 4 + 2 * s] == ' '
            &&& w.subrange(3 * t + 5 + 2 * s, w.len() as int) == stripped(body).0
        }),
{
    let w = weighted_text(title, summary, body);
    let t = title.len() as int;
    let s = summary.len() as int;
    assert(w.subrange(0, t) =~= title);
    assert(w.subrange(t + 1, 2 * t + 1) =~= title);
    assert(w.subrange(2 * t + 2, 3 * t + 2) =~= title);
    assert(w.subrange(3 * t + 3, 3 * t + 3 + s) =~= summary);
    assert(w.subrange(3 * t + 4 + s, 3 * t + 4 + 2 * s) =~= summary);
    assert(w.subrange(3 * t + 5 + 2 * s, w.len() as int) =~= stripped(body).0);
}

/// The words of an article are those of its title, its description and its body.
pub proof fn articles_count_by_their_texts(article: KnowledgeArticle)
    ensures
        article_terms(article) == terms_in(
            weighted_text(
                article.record.short_description@,
                article.record.description@,
                article.content@,
            ),
        ),
{
}

/// The number of a word is what its only entry says; a word without an entry has none.
pub proof fn numbers_stand_in_their_entry(stats: TermStats, i: int, t: Seq<char>)
    requires
        stats.wf(),
    ensures
        0 <= i < stats.entries@.len() ==> stats.count(stats.entries@[i].term@)
            == stats.entries@[i].count,
        (forall|k: int| 0 <= k < stats.entries@.len() ==> (#[trigger] stats.entries@[k]).term@ != t)
            ==> stats.count(t) == 0,
{
    lemma_count(stats.entries@, t, i);
    if 0 <= i < stats.entries@.len() {
        lemma_count(stats.entries@, stats.entries@[i].term@, i);
    }
}

proof fn lemma_count(entries: Seq<TermCount>, t: Seq<char>, at: int)
    requires
        forall|i: int, j: int|
            0 <= i < j < entries.len() ==> (#[trigger] entries[i]).term@ != (
            #[trigger] entries[j]).term@,
    ensures
        0 <= at < entries.len() && entries[at].term@ == t ==> count_in(entries, t)
            == entries[at].count,
        (forall|k: int| 0 <= k < entries.len() ==> (#[trigger] entries[k]).term@ != t) ==> count_in(
            entries,
            t,
        ) == 0,
    decreases entries.len(),
{
    if entries.len() > 0 {
        let front = entries.drop_last();
        let n = entries.len() - 1;
        assert(entries[n] == entries.last());
        assert forall|i: int| 0 <= i < n implies #[trigger] front[i] == entries[i] by {
        }
        assert forall|i: int, j: int| 0 <= i < j < front.len() implies (
        #[trigger] front[i]).term@ != (#[trigger] front[j]).term@ by {
            assert(entries[i].term@ != entries[j].term@);
        }
        lemma_count(front, t, at);
        if 0 <= at < entries.len() && entries[at].term@ == t {
            if at < n {
                assert(front[at] == entries[at]);
                assert(entries[at].term@ != entries[n].term@);
            } else {
                assert forall|k: int| 0 <= k < front.len() implies (#[trigger] front[k]).term@
                    != t by {
                    assert(entries[k].term@ != entries[n].term@);
                }
            }
        }
    }
}

/// Adding an article counts each of its words up by how often it stands there, and taking
/// it away counts them down again, never below nothing.
pub proof fn words_are_counted_up_and_down(
    after: TermStats,
    before: TermStats,
    terms: Seq<Seq<char>>,
    t: Seq<char>,
)
    ensures
        is_incremented(after, before, terms) ==> after.count(t) == before.count(t) + occurrences(
            terms,
            t,
        ),
        is_decremented(after, before, terms) && before.count(t) >= occurrences(terms, t)
            ==> after.count(t) + occurrences(terms, t) == before.count(t),
        is_decremented(after, before, terms) && before.count(t) < occurrences(terms, t)
            ==> after.count(t) == 0,
{
}

/// The number of a word among several lists is the sum over them.
pub proof fn numbers_add_up(a: Seq<ArticleTerms>, b: ArticleTerms, t: Seq<char>)
    ensures
        total_occurrences(Seq::empty(), t) == 0,
        total_occurrences(a.push(b), t) == total_occurrences(a, t) + occurrences(
            texts(b.terms@),
            t,
        ),
{
    assert(a.push(b).drop_last() =~= a);
}

/// A word stands at least in the article that it was found in, and is kept from becoming a
/// tag where the provider has it as one, in any case.
pub proof fn words_of_the_provider_are_blocked(
    stats: TermStats,
    article: KnowledgeArticle,
    t: Seq<char>,
)
    ensures
        articles_with(stats, t) >= 1,
        stats.count(t) >= 1 ==> articles_with(stats, t) == stats.count(t),
        is_blocked(article, t) <==> exists|i: int|
            0 <= i < article.sn_tags@.len() && lower(trim((#[trigger] article.sn_tags@[i])@)) == t,
{
    if exists|i: int|
        0 <= i < article.sn_tags@.len() && lower(trim((#[trigger] article.sn_tags@[i])@)) == t {
        let i = choose|i: int|
            0 <= i < article.sn_tags@.len() && lower(trim((#[trigger] article.sn_tags@[i])@)) == t;
        assert(tag_of(article.sn_tags@[i]@) == t);
    }
}

/// The best words are those with the highest scores, then the highest counts, then the
/// earliest; there are no more than are wanted, and at least one where there is any.
pub proof fn the_best_words_score_highest(scored: Seq<ScoredTerm>, most: int, i: int, j: int)
    ensures
        most >= 1 ==> best_terms(scored, most).len() <= most,
        scored.len() > 0 ==> best_terms(scored, most).len() >= 1,
        scored.len() <= most ==> best_terms(scored, most).len() == scored.len(),
        0 <= i < best_terms(scored, most).len() ==> best_terms(scored, most)[i] == sorted(
            scored,
        )[i].term@,
        0 <= i < j < sorted(scored).len() ==> {
            let a = sorted(scored)[i];
            let b = sorted(scored)[j];
            &&& a.score >= b.score
            &&& a.score == b.score ==> a.count >= b.count
            &&& a.score == b.score && a.count == b.count ==> !text_less(b.term@, a.term@)
        },
        sorted(scored).to_multiset() == scored.to_multiset(),
{
    sorting_orders(scored);
    if 0 <= i < j < sorted(scored).len() {
        assert(!sorted(scored)[j].before(sorted(scored)[i]));
    }
}

proof fn lemma_last_count(rows: Seq<TermCount>, t: Seq<char>, at: int)
    ensures
        (forall|k: int| 0 <= k < rows.len() ==> (#[trigger] rows[k]).term@ != t) ==> last_count(
            rows,
            t,
        ) == 0,
        0 <= at < rows.len() && rows[at].term@ == t && (forall|k: int|
            at < k < rows.len() ==> (#[trigger] rows[k]).term@ != t) ==> last_count(rows, t)
            == rows[at].count,
    decreases rows.len(),
{
    if rows.len() > 0 {
        let front = rows.drop_last();
        let n = rows.len() - 1;
        assert(rows[n] == rows.last());
        lemma_last_count(front, t, at);
        assert forall|i: int| 0 <= i < n implies #[trigger] front[i] == rows[i] by {
        }
    }
}

/// Of several rows of a word the last counts.
pub proof fn the_last_row_of_a_word_counts(rows: Seq<TermCount>, t: Seq<char>, at: int)
    ensures
        (forall|k: int| 0 <= k < rows.len() ==> (#[trigger] rows[k]).term@ != t) ==> last_count(
            rows,
            t,
        ) == 0,
        0 <= at < rows.len() && rows[at].term@ == t && (forall|k: int|
            at < k < rows.len() ==> (#[trigger] rows[k]).term@ != t) ==> last_count(rows, t)
            == rows[at].count,
{
    lemma_last_count(rows, t, at);
}

// --- tags ---

/// The names of the layers of tags.
pub proof fn layers_have_names()
    ensures
        KnowledgeTagLayer::Sn.store_text() == "sn"@,
        KnowledgeTagLayer::Auto.store_text() == "auto"@,
        KnowledgeTagLayer::User.store_text() == "user"@,
{
}

/// A value is a tag without the blanks around it and in small letters; tags are those that
/// were there and those of the values, and no others.
pub proof fn tags_are_those_of_the_values(
    tags: Seq<Seq<char>>,
    values: Seq<Seq<char>>,
    t: Seq<char>,
)
    ensures
        tag_of(t) == lower(trim(t)),
        with_tags(tags, values).contains(t) <==> tags.contains(t) || (t.len() > 0 && exists|
            i: int,
        |
            0 <= i < values.len() && tag_of(#[trigger] values[i]) == t),
        with_tags(tags, values).len() >= tags.len(),
        with_tags(tags, values).subrange(0, tags.len() as int) == tags,
    decreases values.len(),
{
    if values.len() == 0 {
        assert(tags.subrange(0, tags.len() as int) =~= tags);
    } else {
        let front = values.drop_last();
        let n = values.len() - 1;
        tags_are_those_of_the_values(tags, front, t);
        let before = with_tags(tags, front);
        let after = with_tags(tags, values);
        let tag = tag_of(values.last());
        assert(values[n] == values.last());
        assert forall|i: int| 0 <= i < n implies #[trigger] front[i] == values[i] by {
        }
        assert(after.contains(t) <==> before.contains(t) || (t == tag && t.len() > 0)) by {
            if after.contains(t) && !before.contains(t) {
                let k = after.index_of(t);
                if k < before.len() {
                    assert(before[k] == t);
                }
            }
            if before.contains(t) {
                let k = before.index_of(t);
                assert(after[k] == t);
            }
            if t == tag && t.len() > 0 && !before.contains(t) {
                assert(after[before.len() as int] == t);
            }
        }
        if exists|i: int| 0 <= i < front.len() && tag_of(#[trigger] front[i]) == t {
            let i = choose|i: int| 0 <= i < front.len() && tag_of(#[trigger] front[i]) == t;
            assert(tag_of(values[i]) == t);
        }
        if exists|i: int| 0 <= i < values.len() && tag_of(#[trigger] values[i]) == t {
            let i = choose|i: int| 0 <= i < values.len() && tag_of(#[trigger] values[i]) == t;
            if i < n {
                assert(tag_of(front[i]) == t);
            }
        }
        if t == tag {
            assert(tag_of(values[n]) == t);
        }
        assert(after.subrange(0, tags.len() as int) =~= before.subrange(0, tags.len() as int));
    }
}

/// The tags of a layer are the values that are not blank, without the blanks around them,
/// each where it first came.
pub proof fn layers_hold_their_values(a: Seq<Seq<char>>, b: Seq<Seq<char>>, t: Seq<char>)
    ensures
        layer_tags(a).contains(t) <==> t.len() > 0 && exists|i: int|
            0 <= i < a.len() && trim(#[trigger] a[i]) == t,
        layer_tags(a + b).len() >= layer_tags(a).len(),
        layer_tags(a + b).subrange(0, layer_tags(a).len() as int) == layer_tags(a),
    decreases a.len(), b.len(),
{
    if a.len() > 0 {
        let front = a.drop_last();
        let n = a.len() - 1;
        layers_hold_their_values(front, Seq::empty(), t);
        let before = layer_tags(front);
        let after = layer_tags(a);
        let tag = trim(a.last());
        assert(a[n] == a.last());
        assert forall|i: int| 0 <= i < n implies #[trigger] front[i] == a[i] by {
        }
        assert(after.contains(t) <==> before.contains(t) || (t == tag && t.len() > 0)) by {
            if after.contains(t) && !before.contains(t) {
                let k = after.index_of(t);
                if k < before.len() {
                    assert(before[k] == t);
                }
            }
            if before.contains(t) {
                let k = before.index_of(t);
                assert(after[k] == t);
            }
            if t == tag && t.len() > 0 && !before.contains(t) {
                assert(after[before.len() as int] == t);
            }
        }
        if exists|i: int| 0 <= i < front.len() && trim(#[trigger] front[i]) == t {
            let i = choose|i: int| 0 <= i < front.len() && trim(#[trigger] front[i]) == t;
            assert(trim(a[i]) == t);
        }
        if exists|i: int| 0 <= i < a.len() && trim(#[trigger] a[i]) == t {
            let i = choose|i: int| 0 <= i < a.len() && trim(#[trigger] a[i]) == t;
            if i < n {
                assert(trim(front[i]) == t);
            }
        }
        if t == tag {
            assert(trim(a[n]) == t);
        }
    }
    if b.len() == 0 {
        assert(a + b =~= a);
        assert(layer_tags(a).subrange(0, layer_tags(a).len() as int) =~= layer_tags(a));
    } else {
        layers_hold_their_values(a, b.drop_last(), t);
        assert((a + b).drop_last() =~= a + b.drop_last());
        assert(layer_tags(a + b).subrange(0, layer_tags(a).len() as int) =~= layer_tags(
            a + b.drop_last(),
        ).subrange(0, layer_tags(a).len() as int));
    }
}

/// The top tags are the first of the three layers taken one behind the other: those of the
/// provider, those derived, those of the user.
pub proof fn top_tags_come_layer_by_layer(
    sn: Seq<Seq<char>>,
    auto: Seq<Seq<char>>,
    user: Seq<Seq<char>>,
    limit: int,
    i: int,
)
    requires
        limit >= 1,
    ensures
        ({
            let all = with_tags(with_tags(with_tags(Seq::empty(), sn), auto), user);
            let top = top_tags(sn, auto, user, limit);
            &&& top.len() <= limit
            &&& all.len() <= limit ==> top == all
            &&& all.len() > limit ==> top.len() == limit
            &&& 0 <= i < top.len() ==> top[i] == all[i]
        }),
        top_tags(sn, auto, user, 0) == top_tags(sn, auto, user, 1),
{
    lemma_joined(Seq::empty(), sn, auto);
    lemma_joined(Seq::empty(), sn + auto, user);
}

proof fn lemma_joined(tags: Seq<Seq<char>>, a: Seq<Seq<char>>, b: Seq<Seq<char>>)
    ensures
        with_tags(tags, a + b) == with_tags(with_tags(tags, a), b),
    decreases b.len(),
{
    if b.len() == 0 {
        assert(a + b =~= a);
    } else {
        lemma_joined(tags, a, b.drop_last());
        assert((a + b).drop_last() =~= a + b.drop_last());
    }
}

/// The fields of an article that hold tags of the provider, each read in turn: the list
/// that it holds, else what stands between its separators.
pub proof fn provider_tags_come_field_by_field(row: RowView, raw: Seq<char>)
    ensures
        KB_SN_TAG_FIELDS@.len() == 4,
        KB_SN_TAG_FIELDS@[0]@ == "u_keywords"@,
        KB_SN_TAG_FIELDS@[1]@ == "keywords"@,
        KB_SN_TAG_FIELDS@[2]@ == "meta"@,
        KB_SN_TAG_FIELDS@[3]@ == "sys_tags"@,
        provider_tags(row, 0).len() == 0,
        tag_text(row, "sys_tags"@) is None ==> provider_tags(row, 4) == provider_tags(row, 3),
        tag_text(row, "u_keywords"@) is None ==> provider_tags(row, 1).len() == 0,
        row.raw(raw) is Some ==> tag_text(row, raw) == row.raw(raw),
        row.raw(raw) is None ==> tag_text(row, raw) == row.shown(raw),
        field_values(raw, None) == pieces(raw, Separator::TagEnd),
        forall|list: Seq<Seq<char>>| #[trigger] field_values(raw, Some(list)) == list,
{
}

/// The texts among some items are taken in their order, and what is no text is left out.
pub proof fn texts_among_items_are_taken(
    a: Seq<Option<Seq<char>>>,
    b: Seq<Option<Seq<char>>>,
    t: Seq<char>,
)
    ensures
        present(seq![Some(t)]) == seq![t],
        present(seq![None]).len() == 0,
        present(a + b) == present(a) + present(b),
    decreases b.len(),
{
    reveal_with_fuel(present, 2);
    assert(seq![Some(t)].drop_last() =~= Seq::<Option<Seq<char>>>::empty());
    assert(present(seq![Some(t)]) =~= seq![t]);
    assert(seq![None::<Seq<char>>].drop_last() =~= Seq::<Option<Seq<char>>>::empty());
    if b.len() == 0 {
        assert(a + b =~= a);
        assert(present(a) + present(b) =~= present(a));
    } else {
        texts_among_items_are_taken(a, b.drop_last(), t);
        assert((a + b).drop_last() =~= a + b.drop_last());
        assert((a + b).last() == b.last());
        assert(present(a + b) =~= present(a) + present(b));
    }
}

/// The tags of a value are those of the array that it is, else of the array under the key;
/// a value with neither has none.
pub proof fn proposals_are_read_from_an_array(value: TagValueView)
    ensures
        value.array is Some ==> value_tags(value) == Some(
            with_tags(Seq::empty(), present(value.array->0)),
        ),
        value.array is None && value.under_key is Some ==> value_tags(value) == Some(
            with_tags(Seq::empty(), present(value.under_key->0)),
        ),
        value.array is None && value.under_key is None ==> value_tags(value) is None,
{
}

// --- articles ---

/// The label of a field that names a reference is that of the reference; another field keeps
/// what it shows.
pub proof fn fields_show_their_reference(field: NamedField, refs: ArticleReferences)
    ensures
        ({
            let base = refs.knowledge_base.display_name@;
            let category = refs.category.display_name@;
            let name = field.name@;
            &&& name == "knowledge_base"@ && base.len() > 0 ==> shown_label(field, refs) == Some(
                base,
            )
            &&& name == "knowledge_base"@ && base.len() == 0 ==> shown_label(field, refs) is None
            &&& name != "knowledge_base"@ && name == "category"@ && category.len() > 0
                ==> shown_label(field, refs) == Some(category)
            &&& name != "knowledge_base"@ && name == "category"@ && category.len() == 0
                ==> shown_label(field, refs) is None
            &&& name != "knowledge_base"@ && name != "category"@ && name == "author"@
                && refs.author is Some && refs.author->0.display_name@.len() > 0 ==> shown_label(
                field,
                refs,
            ) == Some(refs.author->0.display_name@)
            &&& name != "knowledge_base"@ && name != "category"@ && name == "author"@
                && refs.author is None ==> shown_label(field, refs) is None
            &&& name != "knowledge_base"@ && name != "category"@ && name != "author"@
                ==> shown_label(field, refs) == text_of(field.field.display_value)
        }),
{
}

/// Relabelling keeps every field, its name and its value, and changes what it shows alone.
pub proof fn relabelling_keeps_the_values(
    after: Seq<NamedField>,
    before: Seq<NamedField>,
    refs: ArticleReferences,
    i: int,
)
    requires
        is_relabelled(after, before, refs),
    ensures
        after.len() == before.len(),
        0 <= i < before.len() ==> after[i].name == before[i].name && after[i].field.value
            == before[i].field.value && text_of(after[i].field.display_value) == shown_label(
            before[i],
            refs,
        ),
{
    if 0 <= i < before.len() {
        assert(after[i].name == before[i].name);
    }
}

/// The references of an article stand in its record under their names; without an author
/// there is none in the record.
pub proof fn references_stand_under_their_names(
    before: Map<Seq<char>, Reference>,
    refs: ArticleReferences,
    name: Seq<char>,
)
    ensures
        ({
            let after = article_reference_map(before, refs);
            &&& after.dom().contains("knowledge_base"@) && after["knowledge_base"@]
                == refs.knowledge_base
            &&& after.dom().contains("category"@) && after["category"@] == refs.category
            &&& after.dom().contains("author"@) <==> refs.author is Some
            &&& refs.author is Some ==> after["author"@] == refs.author->0
            &&& name != "knowledge_base"@ && name != "category"@ && name != "author"@ ==> (
            after.dom().contains(name) <==> before.dom().contains(name)) && (before.dom().contains(
                name,
            ) ==> after[name] == before[name])
        }),
{
    reveal_strlit("knowledge_base");
    reveal_strlit("category");
    reveal_strlit("author");
    assert("knowledge_base"@.len() == 14);
    assert("category"@.len() == 8);
    assert("author"@.len() == 6);
}

/// Of several references under one name the later counts.
pub proof fn later_references_count(list: Seq<NamedReference>, r: NamedReference, name: Seq<char>)
    ensures
        reference_map(Seq::empty()).dom() == Set::<Seq<char>>::empty(),
        reference_map(list.push(r)).dom().contains(r.name@),
        reference_map(list.push(r))[r.name@] == r.reference,
        name != r.name@ ==> (reference_map(list.push(r)).dom().contains(name) <==> reference_map(
            list,
        ).dom().contains(name)),
        name != r.name@ && reference_map(list).dom().contains(name) ==> reference_map(
            list.push(r),
        )[name] == reference_map(list)[name],
{
    assert(list.push(r).drop_last() =~= list);
}

/// What is known of an article is kept: the derived tags and the user's tags as they were,
/// and a body that was cached where the fresh one is blank.
pub proof fn known_articles_keep_their_tags(
    fresh: Seq<char>,
    fresh_tags: Seq<Seq<char>>,
    known: KnownArticle,
)
    ensures
        known is File ==> kept_auto_tags(fresh_tags, known) == layer_tags(
            texts(known->File_auto_tags@),
        ) && kept_user_tags(fresh_tags, known) == layer_tags(texts(known->File_user_tags@)),
        known is Stored ==> kept_auto_tags(fresh_tags, known) == layer_tags(
            texts(known->Stored_auto_tags@),
        ) && kept_user_tags(fresh_tags, known) == layer_tags(texts(known->Stored_user_tags@)),
        known is Nothing ==> kept_auto_tags(fresh_tags, known) == layer_tags(fresh_tags)
            && kept_user_tags(fresh_tags, known) == layer_tags(fresh_tags),
        !(known is File) ==> kept_content(fresh, known) == fresh,
        known is File && !known->File_body_cached ==> kept_content(fresh, known) == fresh,
        known is File && trim(known->File_content@).len() == 0 ==> kept_content(fresh, known)
            == fresh,
        was_cached(known) <==> (known is File && known->File_body_cached) || (known is Stored
            && known->Stored_body_cached),
{
}

/// A reference passes a filter that is not given or blank, and one that names it by its id
/// or, in any case, by its label; no other.
pub proof fn references_pass_by_id_or_label(filter: Option<Seq<char>>, reference: Reference)
    ensures
        passes(filter, reference) <==> {
            ||| filter is None
            ||| trim(filter->0).len() == 0
            ||| trim(filter->0) == reference.sys_id@
            ||| lower(trim(filter->0)) == lower(reference.display_name@)
        },
{
    if filter is Some {
        crate::text_laws::case_does_not_count(trim(filter->0), reference.display_name@);
    }
}

/// A listing holds the articles of the base and of the category that are asked for.
pub proof fn listings_hold_base_and_category(
    articles: Seq<KnowledgeArticle>,
    base: Option<Seq<char>>,
    category: Option<Seq<char>>,
    a: KnowledgeArticle,
)
    ensures
        articles.filter(listing_of(base, category)).contains(a) <==> articles.contains(a) && (base
            is Some ==> a.knowledge_base.sys_id@ == base->0) && (category is Some
            ==> a.category.sys_id@ == category->0),
{
    lemma_filter_keeps(articles, listing_of(base, category));
}

/// A list is cut to its limit, but not below one; without a limit it is left whole.
pub proof fn lists_are_cut_to_their_limit<T>(items: Seq<T>, limit: Option<usize>, i: int)
    ensures
        limit is None ==> first_few(items, limit) == items,
        limit is Some && limit->0 >= 1 && items.len() > limit->0 ==> first_few(items, limit).len()
            == limit->0,
        limit is Some && items.len() <= limit->0 ==> first_few(items, limit) == items,
        limit == Some(0usize) && items.len() > 0 ==> first_few(items, limit).len() == 1,
        0 <= i < first_few(items, limit).len() ==> first_few(items, limit)[i] == items[i],
{
}

/// Articles that are sorted come in the order of their numbers, and none is lost.
pub proof fn articles_come_by_number(articles: Seq<KnowledgeArticle>, i: int, j: int)
    requires
        0 <= i < j < sorted(articles).len(),
    ensures
        !text_less(sorted(articles)[j].record.number@, sorted(articles)[i].record.number@),
        sorted(articles).to_multiset() == articles.to_multiset(),
{
    sorting_orders(articles);
    assert(!sorted(articles)[j].before(sorted(articles)[i]));
}

} // verus!
