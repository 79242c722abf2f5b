//! Laws of the index pages of the knowledge articles.
use vstd::prelude::*;

use crate::knowledge_index::{
    active_base, base_dir, base_page, base_step, base_steps, base_sum, category_entries,
    category_line, category_part, count_sum, entry_line, entry_of, first_fifty, global_page,
    group_part, has_category, index_steps, is_active_dir, is_base_dir, is_grouping, key_less,
    key_of, last_of_runs, of_category, quoted, row_key, stale_steps, tag_note, ActiveBase,
    BaseGroup, CategoryCount, IndexCategory, IndexEntry, IndexEntryView, IndexStepView,
    KnowledgeIndexRow, KnowledgeTagSummary,
};
use crate::knowledge_sync::KnowledgeSyncMode;
use crate::listing::lemma_filter_keeps;
use crate::markdown::{concatenated, joined_with};
use crate::order::{sorted, sorting_orders, Ranked};
use crate::paths::path_below;
use crate::tags::top_tags;
use crate::text::{decimal, has_prefix, text_less, texts};

verus! {

/// The line of an article links its number to its path and gives its title; its tags, where
/// it has any, stand behind, each between back quotes.
pub proof fn lines_link_numbers_and_titles(entry: IndexEntryView, tag: Seq<char>)
    ensures
        ({
            let head = "- [`"@ + entry.number + "`]("@ + entry.path + ") **"@ + entry.title;
            &&& entry.tags.len() == 0 ==> entry_line(entry) == head + "**\n"@
            &&& entry.tags == seq![tag] ==> entry_line(entry) == head + "** - `"@ + tag + "`\n"@
        }),
        quoted(tag) == "`"@ + tag + "`"@,
{
    let head = "- [`"@ + entry.number + "`]("@ + entry.path + ") **"@ + entry.title;
    reveal_strlit("** - ");
    reveal_strlit("`");
    reveal_strlit("\n");
    reveal_strlit("`\n");
    reveal_strlit("** - `");
    if entry.tags == seq![tag] {
        let q = crate::knowledge_index::quoted_tags(entry.tags);
        assert(q =~= seq![quoted(tag)]);
        assert(joined_with(q, ", "@) == quoted(tag));
        assert(entry_line(entry) =~= head + "** - `"@ + tag + "`\n"@);
    }
    if entry.tags.len() == 0 {
        assert(crate::knowledge_index::quoted_tags(entry.tags).len() == 0);
    }
}

/// Several tags stand in their order, with a comma between them.
pub proof fn texts_are_joined_with_what_stands_between(
    parts: Seq<Seq<char>>,
    part: Seq<char>,
    between: Seq<char>,
)
    ensures
        joined_with(Seq::empty(), between).len() == 0,
        joined_with(seq![part], between) == part,
        parts.len() > 0 ==> joined_with(parts.push(part), between) == joined_with(parts, between)
            + between + part,
        concatenated(Seq::empty()).len() == 0,
        concatenated(parts.push(part)) == concatenated(parts) + part,
{
    assert(parts.push(part).drop_last() =~= parts);
}

/// The articles of a page come by title, those of the same title by number.
pub proof fn entries_come_by_title_and_number(entries: Seq<IndexEntry>, i: int, j: int)
    requires
        0 <= i < j < sorted(entries).len(),
    ensures
        !text_less(sorted(entries)[j].title@, sorted(entries)[i].title@),
        sorted(entries)[i].title@ == sorted(entries)[j].title@ ==> !text_less(
            sorted(entries)[j].number@,
            sorted(entries)[i].number@,
        ),
        sorted(entries).to_multiset() == entries.to_multiset(),
{
    sorting_orders(entries);
    assert(!sorted(entries)[j].before(sorted(entries)[i]));
}

/// The part of a category gives its name, how many articles it has, and a line for each.
pub proof fn categories_count_their_articles(c: IndexCategory)
    ensures
        c.entries@.len() == 0 ==> category_part(c) == "## "@ + c.name@ + "\n_0 articles_\n\n"@,
        category_part(c) == "## "@ + c.name@ + "\n"@ + "_"@ + decimal(c.entries@.len())
            + " articles_\n"@ + concatenated(
            crate::knowledge_index::entry_lines(sorted(c.entries@)),
        ) + "\n"@,
{
    sorting_orders(c.entries@);
    if c.entries@.len() == 0 {
        reveal_strlit("\n_0 articles_\n\n");
        reveal_strlit("\n");
        reveal_strlit("_");
        reveal_strlit(" articles_\n");
        crate::text_laws::digits_write_their_number(0);
        assert(crate::knowledge_index::entry_lines(sorted(c.entries@)).len() == 0);
        assert(decimal(0) =~= seq!['0']) by {
            reveal_with_fuel(decimal, 2);
        }
        assert(category_part(c) =~= "## "@ + c.name@ + "\n_0 articles_\n\n"@);
    }
}

/// The page of a knowledge base without articles gives its name alone.
pub proof fn empty_bases_have_a_bare_page(base_name: Seq<char>)
    ensures
        base_page(base_name, Seq::empty()) == "# "@ + base_name + " - Knowledge Base\n\n"@,
{
    let none = Seq::<IndexCategory>::empty();
    assert(crate::knowledge_index::category_counts(none).len() == 0);
    assert(crate::knowledge_index::category_parts(none).len() == 0);
    assert(base_page(base_name, none) =~= "# "@ + base_name + " - Knowledge Base\n\n"@);
}

/// The entry of an article holds its number, its title, its first three tags, and its path
/// as seen from the directory of the base; a path that does not lie there stays whole.
pub proof fn entries_hold_what_their_article_says(row: KnowledgeIndexRow, root: Seq<char>)
    ensures
        entry_of(row, root).number == row.number@,
        entry_of(row, root).title == row.title@,
        path_below(row.file_path@, root) is Some ==> entry_of(row, root).path == path_below(
            row.file_path@,
            root,
        )->0,
        path_below(row.file_path@, root) is None ==> entry_of(row, root).path == row.file_path@,
        entry_of(row, root).tags == top_tags(
            texts(row.sn_tags@),
            texts(row.auto_tags@),
            texts(row.user_tags@),
            3,
        ),
{
}

/// The categories of a page come by id and then by name, each once; each holds the articles
/// that are filed under it, and every article is filed under one.
pub proof fn articles_stand_in_their_category(
    categories: Seq<IndexCategory>,
    rows: Seq<KnowledgeIndexRow>,
    root: Seq<char>,
    i: int,
    j: int,
    k: int,
)
    requires
        is_grouping(categories, rows, root),
    ensures
        0 <= i < j < categories.len() ==> text_less(categories[i].sys_id@, categories[j].sys_id@)
            || (categories[i].sys_id@ == categories[j].sys_id@ && text_less(
            categories[i].name@,
            categories[j].name@,
        )),
        0 <= i < categories.len() ==> categories[i].entries@.len() > 0,
        0 <= k < rows.len() ==> exists|m: int|
            0 <= m < categories.len() && (#[trigger] categories[m]).sys_id@
                == rows[k].category_sys_id@ && categories[m].name@ == rows[k].category_name@,
        0 <= i < categories.len() ==> categories[i].entries@.len() == rows.filter(
            of_category(key_of(categories[i])),
        ).len(),
        0 <= i < categories.len() && 0 <= k < categories[i].entries@.len()
            ==> categories[i].entries@[k]@ == entry_of(
            rows.filter(of_category(key_of(categories[i])))[k],
            root,
        ),
        forall|row: KnowledgeIndexRow|
            0 <= i < categories.len() ==> (#[trigger] rows.filter(
                of_category(key_of(categories[i])),
            ).contains(row) <==> rows.contains(row) && row.category_sys_id@ == categories[i].sys_id@
                && row.category_name@ == categories[i].name@),
{
    if 0 <= i < categories.len() {
        let c = categories[i];
        let views = crate::knowledge_index::entry_views(c.entries@);
        assert(views == category_entries(rows, key_of(c), root));
        assert(views.len() == c.entries@.len());
        if 0 <= k < c.entries@.len() {
            assert(views[k] == c.entries@[k]@);
        }
        lemma_filter_keeps(rows, of_category(key_of(c)));
        assert forall|row: KnowledgeIndexRow| #[trigger]
            rows.filter(of_category(key_of(c))).contains(row) <==> rows.contains(row)
                && row.category_sys_id@ == c.sys_id@ && row.category_name@ == c.name@ by {
            assert(of_category(key_of(c))(row) <==> row_key(row) == key_of(c));
        }
        if i < j && j < categories.len() {
            assert(key_less(key_of(categories[i]), key_of(categories[j])));
        }
    }
    if 0 <= k < rows.len() {
        assert(has_category(categories, row_key(rows[k])));
        let m = choose|m: int|
            0 <= m < categories.len() && key_of(#[trigger] categories[m]) == row_key(rows[k]);
        assert(categories[m].sys_id@ == rows[k].category_sys_id@);
    }
}

/// The articles of categories and of bases are added up.
pub proof fn articles_are_added_up(
    categories: Seq<CategoryCount>,
    c: CategoryCount,
    groups: Seq<BaseGroup>,
    g: BaseGroup,
)
    ensures
        count_sum(Seq::empty()) == 0,
        count_sum(categories.push(c)) == count_sum(categories) + c.article_count,
        base_sum(Seq::empty()) == 0,
        base_sum(groups.push(g)) == base_sum(groups) + count_sum(g.categories@),
{
    assert(categories.push(c).drop_last() =~= categories);
    assert(groups.push(g).drop_last() =~= groups);
}

/// The line of a category links it to its place on the page of its base and gives its count;
/// the part of a base gives its name, its count and its categories; a tag stands with its
/// count.
pub proof fn bases_are_listed_with_their_counts(
    dir: Seq<char>,
    c: CategoryCount,
    g: BaseGroup,
    t: KnowledgeTagSummary,
)
    ensures
        category_line(dir, c) == "- **["@ + c.name@ + "](bases/"@ + dir + "/INDEX.md#"@ + c.anchor@
            + ")** ("@ + decimal(c.article_count as nat) + ")\n"@,
        g.categories@ == seq![c] ==> group_part(g) == "## "@ + g.name@ + " ("@ + decimal(
            c.article_count as nat,
        ) + ")\n"@ + category_line(g.dir_name@, c) + "\n"@,
        tag_note(t) == "`"@ + t.tag@ + "` ("@ + decimal(t.count as nat) + ")"@,
{
    if g.categories@ == seq![c] {
        let none = Seq::<CategoryCount>::empty();
        assert(none.push(c) =~= seq![c]);
        articles_are_added_up(none, c, Seq::empty(), g);
        let lines = crate::knowledge_index::category_lines(g.dir_name@, g.categories@);
        assert(lines =~= seq![category_line(g.dir_name@, c)]);
        let empty = Seq::<Seq<char>>::empty();
        texts_are_joined_with_what_stands_between(empty, category_line(g.dir_name@, c), ""@);
        assert(empty.push(category_line(g.dir_name@, c)) =~= lines);
        assert(concatenated(lines) =~= category_line(g.dir_name@, c));
    }
}

/// At most fifty tags stand on the page of all bases, the first ones.
pub proof fn fifty_tags_are_listed(tags: Seq<KnowledgeTagSummary>, i: int)
    ensures
        tags.len() <= 50 ==> first_fifty(tags) == tags,
        tags.len() > 50 ==> first_fifty(tags).len() == 50,
        0 <= i < first_fifty(tags).len() ==> first_fifty(tags)[i] == tags[i],
{
}

/// The page of all bases says when it was synced, how many articles there are and in how
/// many bases.
pub proof fn the_catalog_counts_everything(stamp: Seq<char>)
    ensures
        global_page(Seq::empty(), Seq::empty(), stamp)
            == "# ServiceNow Knowledge Catalog\n\n_Last synced: "@ + stamp
            + " \u{b7} 0 articles across 0 knowledge bases_\n\n"@,
{
    let none = Seq::<BaseGroup>::empty();
    reveal_strlit("# ServiceNow Knowledge Catalog\n\n");
    reveal_strlit("_Last synced: ");
    reveal_strlit(" \u{b7} ");
    reveal_strlit(" articles across ");
    reveal_strlit(" knowledge bases_\n\n");
    reveal_strlit("# ServiceNow Knowledge Catalog\n\n_Last synced: ");
    reveal_strlit(" \u{b7} 0 articles across 0 knowledge bases_\n\n");
    assert(decimal(0) =~= seq!['0']) by {
        reveal_with_fuel(decimal, 2);
    }
    assert(crate::knowledge_index::group_parts(none).len() == 0);
    assert(global_page(none, Seq::empty(), stamp)
        =~= "# ServiceNow Knowledge Catalog\n\n_Last synced: "@ + stamp
        + " \u{b7} 0 articles across 0 knowledge bases_\n\n"@);
}

/// Bases come by id, then by name, then by directory; categories by id, then by name.
pub proof fn bases_and_categories_come_by_id(
    groups: Seq<BaseGroup>,
    categories: Seq<CategoryCount>,
    i: int,
    j: int,
)
    ensures
        0 <= i < j < sorted(groups).len() ==> !text_less(
            sorted(groups)[j].sys_id@,
            sorted(groups)[i].sys_id@,
        ),
        0 <= i < j < sorted(groups).len() && sorted(groups)[i].sys_id@ == sorted(groups)[j].sys_id@
            ==> !text_less(sorted(groups)[j].name@, sorted(groups)[i].name@),
        0 <= i < j < sorted(groups).len() && sorted(groups)[i].sys_id@ == sorted(groups)[j].sys_id@
            && sorted(groups)[i].name@ == sorted(groups)[j].name@ ==> !text_less(
            sorted(groups)[j].dir_name@,
            sorted(groups)[i].dir_name@,
        ),
        0 <= i < j < sorted(categories).len() ==> !text_less(
            sorted(categories)[j].sys_id@,
            sorted(categories)[i].sys_id@,
        ),
        0 <= i < j < sorted(categories).len() && sorted(categories)[i].sys_id@ == sorted(
            categories,
        )[j].sys_id@ ==> !text_less(sorted(categories)[j].name@, sorted(categories)[i].name@),
{
    sorting_orders(groups);
    sorting_orders(categories);
    if 0 <= i < j < sorted(groups).len() {
        assert(!sorted(groups)[j].before(sorted(groups)[i]));
    }
    if 0 <= i < j < sorted(categories).len() {
        assert(!sorted(categories)[j].before(sorted(categories)[i]));
    }
}

/// Of items that rank alike and stand together the last is kept.
pub proof fn the_last_of_equals_is_kept<T: Ranked>(items: Seq<T>)
    requires
        items.len() > 0,
        forall|i: int, j: int|
            0 <= i < items.len() && j == i + 1 && j < items.len() ==> !(#[trigger] items[i]).before(
                #[trigger] items[j],
            ),
    ensures
        last_of_runs(items) == seq![items.last()],
    decreases items.len(),
{
    reveal_with_fuel(last_of_runs, 2);
    let rest = items.drop_last();
    if rest.len() > 0 {
        assert forall|i: int, j: int|
            0 <= i < rest.len() && j == i + 1 && j < rest.len() implies !(
        #[trigger] rest[i]).before(#[trigger] rest[j]) by {
            assert(rest[i] == items[i] && rest[j] == items[j]);
        }
        the_last_of_equals_is_kept(rest);
        let n = items.len() - 1;
        assert(rest.last() == items[n - 1]);
        assert(!items[n - 1].before(items[n]));
        assert(last_of_runs(rest).last() == rest.last());
    } else {
        assert(last_of_runs(rest) =~= Seq::<T>::empty());
    }
    assert(last_of_runs(items) =~= seq![items.last()]);
}

proof fn lemma_run_end<T: Ranked>(items: Seq<T>)
    requires
        items.len() > 0,
    ensures
        last_of_runs(items).len() > 0,
        last_of_runs(items).last() == items.last(),
    decreases items.len(),
{
    if items.len() > 1 {
        lemma_run_end(items.drop_last());
    }
}

/// Where an item ranks before the next, both sides of that place are kept apart.
pub proof fn different_items_are_kept_apart<T: Ranked>(a: Seq<T>, b: Seq<T>)
    requires
        a.len() > 0,
        b.len() > 0,
        a.last().before(b[0]),
    ensures
        last_of_runs(a + b) == last_of_runs(a) + last_of_runs(b),
    decreases b.len(),
{
    lemma_run_end(a);
    lemma_run_end(b);
    let rest = b.drop_last();
    assert((a + b).drop_last() =~= a + rest);
    assert((a + b).last() == b.last());
    if rest.len() == 0 {
        assert(a + rest =~= a);
        assert(b =~= seq![b[0]]);
        assert(last_of_runs(b) =~= seq![b[0]]);
    } else {
        assert(rest[0] == b[0]);
        different_items_are_kept_apart(a, rest);
        lemma_run_end(rest);
        assert(last_of_runs(a + rest).last() == rest.last());
    }
    assert(last_of_runs(a + b) =~= last_of_runs(a) + last_of_runs(b));
}

/// The directories that belong to no base lose their page, one step for each, in their
/// order.
pub proof fn stale_directories_lose_their_page(
    bases: Seq<ActiveBase>,
    a: Seq<Seq<char>>,
    b: Seq<Seq<char>>,
    dir: Seq<char>,
)
    ensures
        is_active_dir(bases, dir) <==> exists|i: int|
            0 <= i < bases.len() && (#[trigger] bases[i]).dir_name@ == dir,
        is_active_dir(bases, dir) ==> stale_steps(bases, seq![dir]).len() == 0,
        !is_active_dir(bases, dir) ==> stale_steps(bases, seq![dir]) == seq![
            IndexStepView::DropStale { dir_name: dir },
        ],
        stale_steps(bases, a + b) == stale_steps(bases, a) + stale_steps(bases, b),
    decreases b.len(),
{
    reveal_with_fuel(stale_steps, 2);
    assert(seq![dir].drop_last() =~= Seq::<Seq<char>>::empty());
    if b.len() == 0 {
        assert(a + b =~= a);
        assert(stale_steps(bases, a) + stale_steps(bases, b) =~= stale_steps(bases, a));
    } else {
        stale_directories_lose_their_page(bases, a, b.drop_last(), dir);
        assert((a + b).drop_last() =~= a + b.drop_last());
        assert((a + b).last() == b.last());
        assert(stale_steps(bases, a + b) =~= stale_steps(bases, a) + stale_steps(bases, b));
    }
}

proof fn lemma_active(bases: Seq<ActiveBase>, id: Seq<char>, at: int)
    ensures
        (forall|k: int| 0 <= k < bases.len() ==> (#[trigger] bases[k]).sys_id@ != id)
            ==> active_base(bases, id) is None,
        0 <= at < bases.len() && bases[at].sys_id@ == id && (forall|k: int|
            at < k < bases.len() ==> (#[trigger] bases[k]).sys_id@ != id) ==> active_base(bases, id)
            == Some(bases[at]),
    decreases bases.len(),
{
    if bases.len() > 0 {
        let front = bases.drop_last();
        let n = bases.len() - 1;
        assert(bases[n] == bases.last());
        lemma_active(front, id, at);
        assert forall|i: int| 0 <= i < n implies #[trigger] front[i] == bases[i] by {
        }
    }
}

proof fn lemma_base_dir(dirs: Seq<Seq<char>>, id: Seq<char>, from: int, at: int)
    requires
        0 <= from,
    ensures
        (forall|k: int| from <= k < dirs.len() ==> !is_base_dir(#[trigger] dirs[k], id))
            ==> base_dir(dirs, id, from) is None,
        from <= at < dirs.len() && is_base_dir(dirs[at], id) && (forall|m: int|
            from <= m < at ==> !is_base_dir(#[trigger] dirs[m], id)) ==> base_dir(dirs, id, from)
            == Some(dirs[at]),
    decreases dirs.len() - from,
{
    if from < dirs.len() && !is_base_dir(dirs[from], id) {
        lemma_base_dir(dirs, id, from + 1, at);
    }
}

/// A base with articles has its page built anew, as the last entry of it says; one without
/// loses the page of the first directory that is named after it; where there is none, there
/// is nothing to do.
pub proof fn bases_are_rebuilt_or_dropped(
    bases: Seq<ActiveBase>,
    dirs: Seq<Seq<char>>,
    id: Seq<char>,
    at: int,
)
    ensures
        0 <= at < bases.len() && bases[at].sys_id@ == id && (forall|k: int|
            at < k < bases.len() ==> (#[trigger] bases[k]).sys_id@ != id) ==> base_step(
            bases,
            dirs,
            id,
        ) == Some(
            IndexStepView::Rebuild {
                base_sys_id: id,
                base_name: bases[at].name@,
                dir_name: bases[at].dir_name@,
            },
        ),
        (forall|k: int| 0 <= k < bases.len() ==> (#[trigger] bases[k]).sys_id@ != id) && (forall|
            k: int,
        |
            0 <= k < dirs.len() ==> !is_base_dir(#[trigger] dirs[k], id)) ==> base_step(
            bases,
            dirs,
            id,
        ) is None,
        (forall|k: int| 0 <= k < bases.len() ==> (#[trigger] bases[k]).sys_id@ != id) && 0 <= at
            < dirs.len() && is_base_dir(dirs[at], id) && (forall|m: int|
            0 <= m < at ==> !is_base_dir(#[trigger] dirs[m], id)) ==> base_step(bases, dirs, id)
            == Some(IndexStepView::DropEmpty { base_sys_id: id, dir_name: dirs[at] }),
{
    lemma_active(bases, id, at);
    lemma_base_dir(dirs, id, 0, at);
}

/// A directory is named after a base where it is the prefix and the id, alone or with an
/// underscore behind.
pub proof fn directories_are_named_after_their_base(dir: Seq<char>, id: Seq<char>)
    ensures
        is_base_dir(dir, id) <==> dir == "kb_"@ + id || has_prefix(dir, "kb_"@ + id + "_"@),
{
}

/// The steps of several bases are those of each, in their order; after a full pass those of
/// every base behind the ones for stale directories, else those of the changed bases.
pub proof fn steps_come_base_by_base(
    mode: KnowledgeSyncMode,
    bases: Seq<ActiveBase>,
    dirs: Seq<Seq<char>>,
    a: Seq<Seq<char>>,
    b: Seq<Seq<char>>,
    id: Seq<char>,
)
    ensures
        base_step(bases, dirs, id) is Some ==> base_steps(bases, dirs, seq![id]) == seq![
            base_step(bases, dirs, id)->0,
        ],
        base_step(bases, dirs, id) is None ==> base_steps(bases, dirs, seq![id]).len() == 0,
        base_steps(bases, dirs, a + b) == base_steps(bases, dirs, a) + base_steps(bases, dirs, b),
        index_steps(KnowledgeSyncMode::Incremental, bases, dirs, a) == base_steps(bases, dirs, a),
        index_steps(KnowledgeSyncMode::Full, bases, dirs, a) == stale_steps(bases, dirs)
            + base_steps(bases, dirs, crate::knowledge_index::base_ids(bases)),
    decreases b.len(),
{
    reveal_with_fuel(base_steps, 2);
    assert(seq![id].drop_last() =~= Seq::<Seq<char>>::empty());
    if b.len() == 0 {
        assert(a + b =~= a);
        assert(base_steps(bases, dirs, a) + base_steps(bases, dirs, b) =~= base_steps(
            bases,
            dirs,
            a,
        ));
    } else {
        steps_come_base_by_base(mode, bases, dirs, a, b.drop_last(), id);
        assert((a + b).drop_last() =~= a + b.drop_last());
        assert((a + b).last() == b.last());
        assert(base_steps(bases, dirs, a + b) =~= base_steps(bases, dirs, a) + base_steps(
            bases,
            dirs,
            b,
        ));
    }
}

} // verus!
