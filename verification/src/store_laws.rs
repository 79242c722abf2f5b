//! Laws of what is kept: the numbers of words as articles change, the listings of the store,
//! the records of the vault, and the paths in it.
use vstd::prelude::*;

use crate::article::KnowledgeArticle;
use crate::knowledge_refresh::{
    after_changes, after_removals, less, llm_prompt, new_occurrences, retagged, terms_before,
    with_change, without_end_slashes, TermChange,
};
use crate::knowledge_service::{
    base_summary, cache_usable, category_summary, first_rows, has_tag, in_base, row_listed,
    still_fresh, used_by_at_least, uses_tag, ArticleRow, CacheMode, KnowledgeBaseRow,
    KnowledgeCategoryRow, KnowledgeService, TagRow,
};
use crate::knowledge_index::KnowledgeTagSummary;
use crate::knowledge_sync::Moment;
use crate::listing::{lemma_filter_keeps, occurrences};
use crate::markdown::joined_with;
use crate::paths::{
    begins_with, behind_parts, counts, is_idle, path_below, path_parts, start_of, tidy_path,
    without_idle_end, PathStart,
};
use crate::row::Cell;
use crate::split::{pieces, Separator};
use crate::tables::{is_business_application_name, server_table, table_name};
use crate::tags::KnowledgeTagLayer;
use crate::terms::{stripped, ArticleTerms};
use crate::text::texts;
use crate::types::{is_configuration_table, is_field_of, latest_of, JournalEntry, NamedField};
use crate::vault::{
    is_orphan, is_unindexed, lacks_its_file, needs_repair, orphan_row, orphan_rows,
    rebuild_file_name, row_map, row_of, unindexed, yes_count, CheckedRow, RecordRow,
    ScannedDocument, VaultEntry,
};

verus! {

// --- words ---

/// Taking away leaves the difference, and nothing where there is not enough.
pub proof fn what_is_left_is_the_difference(n: nat, k: nat)
    ensures
        n >= k ==> less(n, k) + k == n,
        n < k ==> less(n, k) == 0,
{
}

/// Removed articles take their words away one after the other, and changed ones take their
/// old words away and bring their new ones.
pub proof fn changes_count_one_after_the_other(
    n: nat,
    removed: Seq<ArticleTerms>,
    r: ArticleTerms,
    changes: Seq<TermChange>,
    c: TermChange,
    t: Seq<char>,
)
    ensures
        after_removals(n, Seq::empty(), t) == n,
        after_removals(n, removed.push(r), t) == less(
            after_removals(n, removed, t),
            occurrences(texts(r.terms@), t),
        ),
        after_changes(n, Seq::empty(), t) == n,
        after_changes(n, changes.push(c), t) == less(
            after_changes(n, changes, t),
            occurrences(texts(c.old_terms@), t),
        ) + occurrences(texts(c.new_terms@), t),
        new_occurrences(changes.push(c), t) == new_occurrences(changes, t) + occurrences(
            texts(c.new_terms@),
            t,
        ),
{
    assert(removed.push(r).drop_last() =~= removed);
    assert(changes.push(c).drop_last() =~= changes);
}

/// A change puts the new words in the place of the old ones; a new article comes last and had
/// no words.
pub proof fn changes_replace_the_words(entries: Seq<ArticleTerms>, c: TermChange, at: int)
    requires
        0 <= at <= entries.len(),
    ensures
        ({
            let after = with_change(entries, c, at);
            &&& at == entries.len() ==> after.len() == entries.len() + 1 && terms_before(
                entries,
                at,
            ).len() == 0
            &&& at < entries.len() ==> after.len() == entries.len() && terms_before(entries, at)
                == texts(entries[at].terms@)
            &&& after[at].sys_id == c.sys_id
            &&& after[at].terms == c.new_terms
            &&& forall|i: int|
                0 <= i < entries.len() && i != at ==> #[trigger] after[i] == entries[i]
        }),
{
}

/// An article whose derived tags stay the same is left out; any other gets its new tags and
/// keeps all else; the articles keep their order.
pub proof fn only_changed_tags_are_kept(
    articles: Seq<KnowledgeArticle>,
    next: Seq<Vec<String>>,
    article: KnowledgeArticle,
    tags: Vec<String>,
)
    requires
        articles.len() == next.len(),
    ensures
        texts(article.auto_tags@) == texts(tags@) ==> retagged(
            articles.push(article),
            next.push(tags),
        ) == retagged(articles, next),
        texts(article.auto_tags@) != texts(tags@) ==> {
            let r = retagged(articles.push(article), next.push(tags));
            &&& r.len() == retagged(articles, next).len() + 1
            &&& r.drop_last() == retagged(articles, next)
            &&& r.last().auto_tags == tags
            &&& r.last().record == article.record
            &&& r.last().content == article.content
            &&& r.last().sn_tags == article.sn_tags
            &&& r.last().user_tags == article.user_tags
        },
        retagged(Seq::empty(), Seq::empty()).len() == 0,
{
    assert(articles.push(article).drop_last() =~= articles);
    assert(next.push(tags).drop_last() =~= next);
    let r = retagged(articles.push(article), next.push(tags));
    if texts(article.auto_tags@) != texts(tags@) {
        assert(r.drop_last() =~= retagged(articles, next));
    }
}

/// The slashes at the end of a text are taken off, all of them and nothing else.
pub proof fn end_slashes_are_taken_off(s: Seq<char>)
    ensures
        ({
            let r = without_end_slashes(s);
            &&& r.len() <= s.len()
            &&& r == s.subrange(0, r.len() as int)
            &&& forall|i: int| r.len() <= i < s.len() ==> #[trigger] s[i] == '/'
            &&& r.len() > 0 ==> r.last() != '/'
        }),
    decreases s.len(),
{
    if s.len() > 0 && s.last() == '/' {
        let front = s.drop_last();
        end_slashes_are_taken_off(front);
        let r = without_end_slashes(s);
        assert forall|i: int| r.len() <= i < s.len() implies #[trigger] s[i] == '/' by {
            if i < front.len() {
                assert(front[i] == s[i]);
            }
        }
        assert(r =~= s.subrange(0, r.len() as int));
    } else {
        assert(s =~= s.subrange(0, s.len() as int));
    }
}

/// The language model is given the title, the summary and the body without its markup.
pub proof fn prompts_give_title_summary_and_body(
    title: Seq<char>,
    summary: Seq<char>,
    body: Seq<char>,
)
    ensures
        llm_prompt(title, summary, body)
            == "Return 3 to 7 topical tags for this article as a JSON array of lowercase strings. Tags must be at most two words each.\n\nTitle: "@
            + title + "\nSummary: "@ + summary + "\nBody:\n"@ + stripped(body).0,
{
}

// --- listings ---

/// The summary of a base and of a category is what its row says.
pub proof fn summaries_say_what_their_row_says(b: KnowledgeBaseRow, c: KnowledgeCategoryRow)
    ensures
        base_summary(b).sys_id == b.knowledge_base_sys_id,
        base_summary(b).display_name == b.knowledge_base_name,
        base_summary(b).article_count == b.article_count,
        category_summary(c).sys_id == c.category_sys_id,
        category_summary(c).knowledge_base_sys_id == c.knowledge_base_sys_id,
        category_summary(c).display_name == c.category_name,
        category_summary(c).article_count == c.article_count,
{
}

/// The categories of a base are those that name it, and the tags that count are those of
/// enough articles.
pub proof fn listings_keep_what_was_asked_for(
    categories: Seq<KnowledgeCategoryRow>,
    tags: Seq<TagRow>,
    id: Seq<char>,
    n: usize,
    c: KnowledgeCategoryRow,
    t: TagRow,
)
    ensures
        categories.filter(in_base(id)).contains(c) <==> categories.contains(c)
            && c.knowledge_base_sys_id@ == id,
        tags.filter(used_by_at_least(n)).contains(t) <==> tags.contains(t) && t.article_count >= n,
{
    lemma_filter_keeps(categories, in_base(id));
    lemma_filter_keeps(tags, used_by_at_least(n));
}

/// A tag is in a layer where an article of the layer has it; the layers come in their order.
pub proof fn tags_are_in_the_layers_that_use_them(s: KnowledgeService, tag: Seq<char>)
    ensures
        uses_tag(s.sn_tags@, tag) <==> exists|i: int|
            0 <= i < s.sn_tags@.len() && (#[trigger] s.sn_tags@[i]).tag@ == tag
                && s.sn_tags@[i].article_count >= 1,
        s.layers_with(tag).contains(KnowledgeTagLayer::Sn) <==> uses_tag(s.sn_tags@, tag),
        s.layers_with(tag).contains(KnowledgeTagLayer::Auto) <==> uses_tag(s.auto_tags@, tag),
        s.layers_with(tag).contains(KnowledgeTagLayer::User) <==> uses_tag(s.user_tags@, tag),
        uses_tag(s.sn_tags@, tag) ==> s.layers_with(tag)[0] == KnowledgeTagLayer::Sn,
        uses_tag(s.user_tags@, tag) ==> s.layers_with(tag).last() == KnowledgeTagLayer::User,
        s.layers_with(tag).len() <= 3,
        s.layer(KnowledgeTagLayer::Sn) == s.sn_tags@,
        s.layer(KnowledgeTagLayer::Auto) == s.auto_tags@,
        s.layer(KnowledgeTagLayer::User) == s.user_tags@,
{
    let l = s.layers_with(tag);
    if exists|i: int|
        0 <= i < s.sn_tags@.len() && (#[trigger] s.sn_tags@[i]).tag@ == tag
            && s.sn_tags@[i].article_count >= 1 {
        let i = choose|i: int|
            0 <= i < s.sn_tags@.len() && (#[trigger] s.sn_tags@[i]).tag@ == tag
                && s.sn_tags@[i].article_count >= 1;
        assert(used_by_at_least(1)(s.sn_tags@[i]));
    }
    let sn: int = if uses_tag(s.sn_tags@, tag) {
        1
    } else {
        0
    };
    let auto: int = if uses_tag(s.auto_tags@, tag) {
        1
    } else {
        0
    };
    if uses_tag(s.sn_tags@, tag) {
        assert(l[0] == KnowledgeTagLayer::Sn);
    }
    if uses_tag(s.auto_tags@, tag) {
        assert(l[sn] == KnowledgeTagLayer::Auto);
    }
    if uses_tag(s.user_tags@, tag) {
        assert(l[sn + auto] == KnowledgeTagLayer::User);
    }
}

/// The report on tags tells of each row its tag and its count, and at the first mention of a
/// tag the layers that use it.
pub proof fn tag_reports_tell_the_layers_once(
    s: KnowledgeService,
    report: Seq<KnowledgeTagSummary>,
    rows: Seq<TagRow>,
    i: int,
)
    requires
        s.is_tag_report(report, rows),
    ensures
        report.len() == rows.len(),
        0 <= i < rows.len() ==> {
            &&& report[i].tag == rows[i].tag
            &&& report[i].count == rows[i].article_count
            &&& (forall|k: int| 0 <= k < i ==> (#[trigger] rows[k]).tag@ != rows[i].tag@)
                ==> report[i].layers@ == s.layers_with(rows[i].tag@)
            &&& (exists|k: int| 0 <= k < i && (#[trigger] rows[k]).tag@ == rows[i].tag@)
                ==> report[i].layers@.len() == 0
        },
{
    if 0 <= i < rows.len() {
        let before = rows.subrange(0, i);
        assert(report[i].tag == rows[i].tag);
        if has_tag(before, rows[i].tag@) {
            let k = choose|k: int|
                0 <= k < before.len() && (#[trigger] before[k]).tag@ == rows[i].tag@;
            assert(rows[k].tag@ == rows[i].tag@);
        }
        if exists|k: int| 0 <= k < i && (#[trigger] rows[k]).tag@ == rows[i].tag@ {
            let k = choose|k: int| 0 <= k < i && (#[trigger] rows[k]).tag@ == rows[i].tag@;
            assert(before[k].tag@ == rows[i].tag@);
        }
    }
}

/// The categories of the bases are added up.
pub proof fn categories_are_added_up(
    s: KnowledgeService,
    bases: Seq<KnowledgeBaseRow>,
    b: KnowledgeBaseRow,
)
    ensures
        s.category_total(Seq::empty()) == 0,
        s.category_total(bases.push(b)) == s.category_total(bases) + s.categories@.filter(
            in_base(b.knowledge_base_sys_id@),
        ).len(),
{
    assert(bases.push(b).drop_last() =~= bases);
}

/// A time to live has not run out while fewer seconds than that have passed; an article of
/// the cache is given out with its body, and while it is fresh or nothing else may be asked.
pub proof fn articles_are_given_out_while_fresh(
    mode: CacheMode,
    ttl: Option<i64>,
    body: bool,
    synced_at: Moment,
    now: Moment,
)
    ensures
        ttl is Some ==> (still_fresh(synced_at, ttl->0, now) <==> (now.seconds - synced_at.seconds)
            * 1_000_000_000 + (now.nanos - synced_at.nanos) < ttl->0 * 1_000_000_000),
        cache_usable(mode, ttl, Some((body, synced_at)), now) <==> body && (mode
            == CacheMode::CacheOnly || (ttl is Some && still_fresh(synced_at, ttl->0, now))),
        !cache_usable(mode, ttl, None, now),
{
}

/// Of the rows of one article the first is kept, and no other.
pub proof fn the_first_row_of_an_article_is_kept(rows: Seq<ArticleRow>, row: ArticleRow)
    ensures
        row_listed(rows, row.sys_id@) ==> first_rows(rows.push(row)) == first_rows(rows),
        !row_listed(rows, row.sys_id@) ==> first_rows(rows.push(row)) == first_rows(rows).push(row),
        first_rows(Seq::empty()).len() == 0,
        row_listed(rows, row.sys_id@) <==> exists|i: int|
            0 <= i < rows.len() && (#[trigger] rows[i]).sys_id@ == row.sys_id@,
{
    assert(rows.push(row).drop_last() =~= rows);
}

// --- the vault ---

/// The record of a document holds what the document says, each of its parts in its place.
pub proof fn records_hold_what_their_document_says(entry: VaultEntry)
    ensures
        row_of(entry).sys_id == entry.sys_id,
        row_of(entry).number == entry.number,
        row_of(entry).short_desc == Some(entry.short_description),
        row_of(entry).description == Some(entry.description),
        row_of(entry).assigned_to == entry.assigned_to,
        row_of(entry).parent_id == entry.parent_sys_id,
        row_of(entry).file_path == Some(entry.relative_path),
        row_of(entry).raw_json == entry.raw_json,
{
}

/// Of several records under one id the later counts.
pub proof fn later_records_count(rows: Seq<RecordRow>, row: RecordRow, id: Seq<char>)
    ensures
        !row_map(Seq::empty()).dom().contains(id),
        row_map(rows.push(row)).dom().contains(row.sys_id@),
        row_map(rows.push(row))[row.sys_id@] == row,
        id != row.sys_id@ ==> (row_map(rows.push(row)).dom().contains(id) <==> row_map(
            rows,
        ).dom().contains(id)),
        id != row.sys_id@ && row_map(rows).dom().contains(id) ==> row_map(rows.push(row))[id]
            == row_map(rows)[id],
{
    assert(rows.push(row).drop_last() =~= rows);
}

/// A record lacks its file where it names one that is not there; it is an orphan also where it
/// names none; a document is not indexed where no record bears its id.
pub proof fn orphans_have_no_document(
    row: CheckedRow,
    rows: Seq<CheckedRow>,
    doc: ScannedDocument,
    record: RecordRow,
)
    ensures
        lacks_its_file()(row) <==> row.file_path is Some && !row.file_exists,
        is_orphan()(row) <==> row.file_path is None || !row.file_exists,
        orphan_row(row).sys_id == row.sys_id,
        orphan_row(row).number == row.number,
        orphan_row(row).file_path == row.file_path,
        is_unindexed(rows)(doc) <==> forall|i: int|
            0 <= i < rows.len() ==> (#[trigger] rows[i]).sys_id@ != doc.sys_id@,
        needs_repair()(record) <==> record.file_path is None,
{
}

/// The orphans and the documents without a record are told one for one.
pub proof fn findings_are_told_one_for_one(
    rows: Seq<CheckedRow>,
    docs: Seq<ScannedDocument>,
    i: int,
)
    ensures
        orphan_rows(rows).len() == rows.len(),
        0 <= i < rows.len() ==> orphan_rows(rows)[i] == orphan_row(rows[i]),
        unindexed(docs).len() == docs.len(),
        0 <= i < docs.len() ==> unindexed(docs)[i].sys_id == docs[i].sys_id && unindexed(
            docs,
        )[i].number == docs[i].number && unindexed(docs)[i].relative_path == docs[i].relative_path,
{
}

pub open spec fn is_yes() -> spec_fn(bool) -> bool {
    |b: bool| b
}

/// The answers that are yes are counted.
pub proof fn answers_are_counted(answers: Seq<bool>)
    ensures
        yes_count(answers) == answers.filter(is_yes()).len(),
    decreases answers.len(),
{
    reveal(Seq::filter);
    if answers.len() > 0 {
        answers_are_counted(answers.drop_last());
    }
}

/// The file that a store is built in is hidden, bears the name of the store and the token.
pub proof fn stores_are_built_beside_the_old_one(name: Seq<char>, token: Seq<char>)
    ensures
        rebuild_file_name(name, token) == "."@ + name + ".rebuild-"@ + token + ".tmp"@,
{
}

// --- records ---

/// The latest entry is not earlier than any, and later than every one behind it.
pub proof fn the_latest_entry_is_the_last_of_the_latest(entries: Seq<JournalEntry>, i: int, j: int)
    requires
        latest_of(entries, i),
        0 <= j < entries.len(),
    ensures
        0 <= i < entries.len(),
        entries[j].timestamp <= entries[i].timestamp,
        j > i ==> entries[j].timestamp < entries[i].timestamp,
{
}

/// The field of a cell has its name and what it shows; its value is the raw text, else what it
/// holds that is no text, else nothing.
pub proof fn fields_hold_what_their_cell_says(f: NamedField, c: Cell)
    requires
        is_field_of(f, c),
    ensures
        f.name == c.name,
        f.field.display_value == c.display,
        c.raw is Some ==> f.field.value@ == c.raw->0@,
        c.raw is None && c.other is Some ==> f.field.value@ == c.other->0@,
        c.raw is None && c.other is None ==> f.field.value@.len() == 0,
{
}

/// Business applications and servers keep their texts elsewhere.
pub proof fn configuration_records_keep_their_texts_elsewhere(table: Seq<char>)
    ensures
        is_configuration_table(table) <==> is_business_application_name(table_name(table))
            || server_table(table_name(table)) is Some,
{
}

// --- paths ---

/// Empty parts and points stand for nothing; the parts of a path are the others, in their
/// order.
pub proof fn paths_are_made_of_parts(path: Seq<char>, part: Seq<char>)
    ensures
        is_idle(part) <==> part.len() == 0 || part == "."@,
        path_parts(path).contains(part) <==> pieces(path, Separator::Slash).contains(part) && !(
        part.len() == 0 || part == "."@),
{
    lemma_filter_keeps(pieces(path, Separator::Slash), counts());
}

/// A path starts at the root where it begins with a slash, here where its first part is a
/// point, and else with its first part.
pub proof fn paths_start_at_the_root_or_here(path: Seq<char>)
    ensures
        path.len() == 0 ==> start_of(path) == PathStart::Plain,
        path.len() > 0 && pieces(path, Separator::Slash)[0].len() == 0 ==> start_of(path)
            == PathStart::Root,
        path.len() > 0 && pieces(path, Separator::Slash)[0].len() > 0 && pieces(
            path,
            Separator::Slash,
        )[0] == "."@ ==> start_of(path) == PathStart::Here,
        path.len() > 0 && pieces(path, Separator::Slash)[0].len() > 0 && pieces(
            path,
            Separator::Slash,
        )[0] != "."@ ==> start_of(path) == PathStart::Plain,
{
}

proof fn lemma_behind(list: Seq<Seq<char>>, count: nat)
    requires
        count <= list.filter(counts()).len(),
    ensures
        behind_parts(list, count).filter(counts()) == list.filter(counts()).subrange(
            count as int,
            list.filter(counts()).len() as int,
        ),
        behind_parts(list, count).len() > 0 ==> !is_idle(behind_parts(list, count)[0]),
    decreases list.len(),
{
    let all = list.filter(counts());
    if list.len() == 0 {
        reveal(Seq::filter);
        assert(all =~= Seq::empty());
        assert(all.subrange(0, 0) =~= all);
    } else {
        let rest = list.subrange(1, list.len() as int);
        lemma_filter_front(list);
        if is_idle(list[0]) {
            lemma_behind(rest, count);
        } else if count == 0 {
            assert(all.subrange(0, all.len() as int) =~= all);
        } else {
            assert(all =~= seq![list[0]] + rest.filter(counts()));
            lemma_behind(rest, (count - 1) as nat);
            let r = rest.filter(counts());
            assert(r.subrange(count - 1, r.len() as int) =~= all.subrange(
                count as int,
                all.len() as int,
            ));
        }
    }
}

proof fn lemma_filter_front(list: Seq<Seq<char>>)
    requires
        list.len() > 0,
    ensures
        list.filter(counts()) == (if is_idle(list[0]) {
            Seq::empty()
        } else {
            seq![list[0]]
        }) + list.subrange(1, list.len() as int).filter(counts()),
    decreases list.len(),
{
    reveal(Seq::filter);
    let rest = list.subrange(1, list.len() as int);
    if list.len() == 1 {
        assert(list.drop_last() =~= Seq::<Seq<char>>::empty());
        assert(rest =~= Seq::<Seq<char>>::empty());
        assert(list.drop_last().filter(counts()) =~= Seq::empty());
    } else {
        let front = list.drop_last();
        lemma_filter_front(front);
        assert(front.subrange(1, front.len() as int) =~= rest.drop_last());
        assert(rest.last() == list.last());
    }
    assert(list.filter(counts()) =~= (if is_idle(list[0]) {
        Seq::empty()
    } else {
        seq![list[0]]
    }) + rest.filter(counts()));
}

proof fn lemma_idle_end(list: Seq<Seq<char>>)
    ensures
        without_idle_end(list).filter(counts()) == list.filter(counts()),
        without_idle_end(list).len() > 0 ==> !is_idle(without_idle_end(list).last()),
        without_idle_end(list).len() <= list.len(),
        without_idle_end(list) == list.subrange(0, without_idle_end(list).len() as int),
    decreases list.len(),
{
    reveal(Seq::filter);
    if list.len() > 0 && is_idle(list.last()) {
        lemma_idle_end(list.drop_last());
        let r = without_idle_end(list);
        assert(r =~= list.subrange(0, r.len() as int));
    } else {
        assert(list =~= list.subrange(0, list.len() as int));
    }
}

/// A path lies below a directory where both start alike and its first parts are those of the
/// directory; seen from there it is made of the parts that follow, and begins and ends with
/// one of them.
pub proof fn paths_below_a_directory_begin_with_it(path: Seq<char>, root: Seq<char>)
    requires
        root.len() > 0,
    ensures
        path_below(path, root) is Some <==> {
            &&& start_of(path) == start_of(root)
            &&& path_parts(root).len() <= path_parts(path).len()
            &&& forall|i: int|
                0 <= i < path_parts(root).len() ==> #[trigger] path_parts(path)[i] == path_parts(
                    root,
                )[i]
        },
        path_below(path, root) is Some ==> exists|list: Seq<Seq<char>>|
            {
                &&& path_below(path, root) == Some(#[trigger] joined_with(list, "/"@))
                &&& list.filter(counts()) == path_parts(path).subrange(
                    path_parts(root).len() as int,
                    path_parts(path).len() as int,
                )
                &&& list.len() > 0 ==> !is_idle(list.last()) && !is_idle(list[0])
            },
{
    let parts = path_parts(path);
    let first = path_parts(root);
    if begins_with(parts, first) {
        assert forall|i: int| 0 <= i < first.len() implies #[trigger] parts[i] == first[i] by {
            assert(parts.subrange(0, first.len() as int)[i] == first[i]);
        }
    }
    if first.len() <= parts.len() && (forall|i: int|
        0 <= i < first.len() ==> #[trigger] parts[i] == first[i]) {
        assert(parts.subrange(0, first.len() as int) =~= first);
    }
    if path_below(path, root) is Some {
        let all = pieces(path, Separator::Slash);
        let rest = behind_parts(all, first.len());
        lemma_behind(all, first.len());
        lemma_idle_end(rest);
        let list = without_idle_end(rest);
        assert(path_below(path, root) == Some(joined_with(list, "/"@)));
        if list.len() > 0 {
            assert(list[0] == rest[0]);
        }
    }
}

/// A path that is seen from nowhere stays as it is, without what stands for nothing at its
/// end.
pub proof fn paths_are_tidied_at_their_end(path: Seq<char>)
    ensures
        path_below(path, Seq::empty()) == Some(tidy_path(path)),
        path_parts(path).len() == 0 && start_of(path) == PathStart::Root ==> tidy_path(path)
            == "/"@,
        path_parts(path).len() == 0 && start_of(path) == PathStart::Here ==> tidy_path(path)
            == "."@,
        path_parts(path).len() == 0 && start_of(path) == PathStart::Plain ==> tidy_path(path)
            == ""@,
        path_parts(path).len() > 0 ==> exists|n: int|
            {
                &&& 0 < n <= pieces(path, Separator::Slash).len()
                &&& !is_idle(pieces(path, Separator::Slash)[n - 1])
                &&& tidy_path(path) == #[trigger] joined_with(
                    pieces(path, Separator::Slash).subrange(0, n),
                    "/"@,
                )
            },
{
    let all = pieces(path, Separator::Slash);
    lemma_idle_end(all);
    if path_parts(path).len() > 0 {
        let list = without_idle_end(all);
        reveal(Seq::filter);
        assert(list.len() > 0);
        let n = list.len() as int;
        assert(list.last() == all[n - 1]);
        assert(tidy_path(path) == joined_with(all.subrange(0, n), "/"@));
    }
}

} // verus!
