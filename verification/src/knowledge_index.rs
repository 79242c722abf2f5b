//! The index pages of the knowledge articles in the vault.
use vstd::prelude::*;
use vstd::string::*;

use crate::knowledge_sync::KnowledgeSyncMode;
use crate::listing::lemma_filter_step;
use crate::markdown::{concatenated, join_texts, joined_with};
use crate::order::{sort, sorted, Ranked};
use crate::paths::{path_below, strip_root};
use crate::tags::{merged_top_tags, top_tags, KnowledgeTagLayer};
use crate::text::{
    decimal, decimal_text, has_prefix, joined3, lemma_text_order, lemma_texts_push, less_text,
    same, starts_with_text, text_less, text_of, texts,
};
use crate::timestamp::{format_minute, minute_text};

verus! {

#[derive(Debug, Clone, PartialEq, Eq)]
pub struct KnowledgeTagSummary {
    pub tag: String,
    pub count: usize,
    pub layers: Vec<KnowledgeTagLayer>,
}

// --- the page of one knowledge base ---

/// One article of an index page.
#[derive(Debug, Clone, PartialEq, Eq)]
pub struct IndexEntry {
    pub number: String,
    pub title: String,
    pub article_relative_path: String,
    pub tags: Vec<String>,
}

pub struct IndexEntryView {
    pub number: Seq<char>,
    pub title: Seq<char>,
    pub path: Seq<char>,
    pub tags: Seq<Seq<char>>,
}

impl View for IndexEntry {
    type V = IndexEntryView;

    open spec fn view(&self) -> IndexEntryView {
        IndexEntryView {
            number: self.number@,
            title: self.title@,
            path: self.article_relative_path@,
            tags: texts(self.tags@),
        }
    }
}

/// Entries are ordered by title, then by number.
impl Ranked for IndexEntry {
    open spec fn before(self, other: Self) -> bool {
        text_less(self.title@, other.title@) || (self.title@ == other.title@ && text_less(
            self.number@,
            other.number@,
        ))
    }

    proof fn rank_laws(a: Self, b: Self, c: Self) {
        lemma_text_order(a.title@, b.title@, c.title@);
        lemma_text_order(b.title@, a.title@, b.title@);
        lemma_text_order(b.title@, c.title@, b.title@);
        lemma_text_order(c.title@, b.title@, a.title@);
        lemma_text_order(a.title@, c.title@, a.title@);
        lemma_text_order(a.number@, b.number@, c.number@);
    }

    fn precedes(&self, other: &Self) -> (r: bool) {
        less_text(self.title.as_str(), other.title.as_str()) || (same(
            self.title.as_str(),
            other.title.as_str(),
        ) && less_text(self.number.as_str(), other.number.as_str()))
    }
}

/// The articles of one category.
#[derive(Debug, Clone, PartialEq, Eq)]
pub struct IndexCategory {
    pub sys_id: String,
    pub name: String,
    pub entries: Vec<IndexEntry>,
}

/// A tag between back quotes.
pub open spec fn quoted(tag: Seq<char>) -> Seq<char> {
    "`"@ + tag + "`"@
}

pub open spec fn quoted_tags(tags: Seq<Seq<char>>) -> Seq<Seq<char>> {
    tags.map_values(|t: Seq<char>| quoted(t))
}

fn quote_tags(tags: &Vec<String>) -> (r: Vec<String>)
    ensures
        texts(r@) == quoted_tags(texts(tags@)),
{
    let mut out: Vec<String> = Vec::new();
    let mut i: usize = 0;
    assert(texts(out@) =~= quoted_tags(texts(tags@.subrange(0, 0))));
    while i < tags.len()
        invariant
            i <= tags@.len(),
            texts(out@) == quoted_tags(texts(tags@.subrange(0, i as int))),
        decreases tags@.len() - i,
    {
        let item: String = joined3("`", tags[i].as_str(), "`");
        proof {
            lemma_texts_push(out@, item);
            assert(quoted_tags(texts(tags@.subrange(0, i + 1))) =~= quoted_tags(
                texts(tags@.subrange(0, i as int)),
            ).push(item@));
        }
        out.push(item);
        i += 1;
    }
    assert(tags@.subrange(0, i as int) =~= tags@);
    out
}

/// The line of one article.
pub open spec fn entry_line(entry: IndexEntryView) -> Seq<char> {
    let tags = joined_with(quoted_tags(entry.tags), ", "@);
    let head = "- [`"@ + entry.number + "`]("@ + entry.path + ") **"@ + entry.title;
    if tags.len() == 0 {
        head + "**\n"@
    } else {
        head + "** - "@ + tags + "\n"@
    }
}

fn render_entry(entry: &IndexEntry) -> (r: String)
    ensures
        r@ == entry_line(entry@),
{
    let quoted_list: Vec<String> = quote_tags(&entry.tags);
    let tags: String = join_texts(&quoted_list, ", ");
    let mut out: String = "- [`".to_owned();
    out.append(entry.number.as_str());
    out.append("`](");
    out.append(entry.article_relative_path.as_str());
    out.append(") **");
    out.append(entry.title.as_str());
    if tags.as_str().unicode_len() == 0 {
        out.append("**\n");
    } else {
        out.append("** - ");
        out.append(tags.as_str());
        out.append("\n");
    }
    out
}

pub open spec fn entry_lines(entries: Seq<IndexEntry>) -> Seq<Seq<char>> {
    entries.map_values(|e: IndexEntry| entry_line(e@))
}

/// The part of the page for one category: a heading, the number of articles, and
/// their lines in order.
pub open spec fn category_part(c: IndexCategory) -> Seq<char> {
    "## "@ + c.name@ + "\n"@ + "_"@ + decimal(c.entries@.len()) + " articles_\n"@ + concatenated(
        entry_lines(sorted(c.entries@)),
    ) + "\n"@
}

fn render_category(c: IndexCategory) -> (r: String)
    ensures
        r@ == category_part(c),
{
    let mut out: String = "## ".to_owned();
    out.append(c.name.as_str());
    out.append("\n");
    out.append("_");
    out.append(decimal_text(c.entries.len() as u64).as_str());
    out.append(" articles_\n");
    let entries: Vec<IndexEntry> = sort(c.entries);
    let ghost head = out@;
    let ghost lines = entry_lines(entries@);
    let mut i: usize = 0;
    assert(lines.subrange(0, 0) =~= Seq::<Seq<char>>::empty());
    assert(out@ =~= head + concatenated(lines.subrange(0, 0)));
    while i < entries.len()
        invariant
            i <= entries@.len(),
            lines == entry_lines(entries@),
            out@ == head + concatenated(lines.subrange(0, i as int)),
        decreases entries@.len() - i,
    {
        let line: String = render_entry(&entries[i]);
        out.append(line.as_str());
        proof {
            let longer = lines.subrange(0, i + 1);
            assert(longer.drop_last() =~= lines.subrange(0, i as int));
            assert(longer.last() == line@);
            assert(out@ =~= head + concatenated(longer));
        }
        i += 1;
    }
    assert(lines.subrange(0, i as int) =~= lines);
    out.append("\n");
    out
}

/// How many articles stand in each category.
pub open spec fn category_counts(categories: Seq<IndexCategory>) -> Seq<Seq<char>> {
    categories.map_values(|c: IndexCategory| decimal(c.entries@.len()) + " in "@ + c.name@)
}

pub open spec fn category_parts(categories: Seq<IndexCategory>) -> Seq<Seq<char>> {
    categories.map_values(|c: IndexCategory| category_part(c))
}

/// The page of a knowledge base.
pub open spec fn base_page(base_name: Seq<char>, categories: Seq<IndexCategory>) -> Seq<char> {
    let summary = joined_with(category_counts(categories), " \u{b7} "@);
    "# "@ + base_name + " - Knowledge Base\n\n"@ + (if summary.len() == 0 {
        Seq::empty()
    } else {
        "_"@ + summary + "_\n\n"@
    }) + concatenated(category_parts(categories))
}

/// Renders the page of a knowledge base from its categories.
pub fn render_base_index(base_name: &str, categories: Vec<IndexCategory>) -> (r: String)
    ensures
        r@ == base_page(base_name@, categories@),
{
    let ghost all = categories@;
    let mut counts: Vec<String> = Vec::new();
    let mut i: usize = 0;
    assert(texts(counts@) =~= category_counts(all.subrange(0, 0)));
    while i < categories.len()
        invariant
            i <= categories@.len(),
            all == categories@,
            texts(counts@) == category_counts(all.subrange(0, i as int)),
        decreases categories@.len() - i,
    {
        let item: String = joined3(
            decimal_text(categories[i].entries.len() as u64).as_str(),
            " in ",
            categories[i].name.as_str(),
        );
        proof {
            lemma_texts_push(counts@, item);
            assert(category_counts(all.subrange(0, i + 1)) =~= category_counts(
                all.subrange(0, i as int),
            ).push(item@));
        }
        counts.push(item);
        i += 1;
    }
    assert(all.subrange(0, i as int) =~= all);
    let summary: String = join_texts(&counts, " \u{b7} ");
    let mut out: String = "# ".to_owned();
    out.append(base_name);
    out.append(" - Knowledge Base\n\n");
    let ghost head = out@;
    if summary.as_str().unicode_len() > 0 {
        out.append("_");
        out.append(summary.as_str());
        out.append("_\n\n");
        assert(out@ =~= head + ("_"@ + summary@ + "_\n\n"@));
    } else {
        assert(out@ =~= head + Seq::<char>::empty());
    }
    let ghost front = out@;
    let ghost parts = category_parts(all);
    let mut rest: Vec<IndexCategory> = categories;
    let ghost mut done: int = 0;
    proof {
        assert(all.subrange(0, all.len() as int) =~= all);
        assert(parts.subrange(0, 0) =~= Seq::<Seq<char>>::empty());
        assert(out@ =~= front + concatenated(parts.subrange(0, 0)));
    }
    while rest.len() > 0
        invariant
            0 <= done <= all.len(),
            parts == category_parts(all),
            rest@ == all.subrange(done, all.len() as int),
            out@ == front + concatenated(parts.subrange(0, done)),
        decreases rest@.len(),
    {
        let c: IndexCategory = rest.remove(0);
        assert(c == all[done]);
        let part: String = render_category(c);
        out.append(part.as_str());
        proof {
            let longer = parts.subrange(0, done + 1);
            assert(longer.drop_last() =~= parts.subrange(0, done));
            assert(longer.last() == part@);
            assert(out@ =~= front + concatenated(longer));
            done = done + 1;
            assert(rest@ =~= all.subrange(done, all.len() as int));
        }
    }
    assert(parts.subrange(0, done) =~= parts);
    out
}

// --- the categories of a knowledge base, from its articles ---

/// What the store knows of an article for the index.
#[derive(Debug, Clone, PartialEq, Eq)]
pub struct KnowledgeIndexRow {
    pub number: String,
    pub title: String,
    pub category_sys_id: String,
    pub category_name: String,
    pub file_path: String,
    pub sn_tags: Vec<String>,
    pub auto_tags: Vec<String>,
    pub user_tags: Vec<String>,
}

/// A path as seen from the directory of the knowledge base.
pub fn relative_from_base_index(file_path: &str, base_relative_root: &str) -> (r: Option<String>)
    ensures
        text_of(r) == path_below(file_path@, base_relative_root@),
{
    strip_root(file_path, base_relative_root)
}

/// The path that stands in the index, given what it is below the directory of
/// the knowledge base.
pub open spec fn index_path(file_path: Seq<char>, below: Option<Seq<char>>) -> Seq<char> {
    match below {
        Some(p) => p,
        None => file_path,
    }
}

/// The entry of an article.
pub open spec fn entry_of(row: KnowledgeIndexRow, root: Seq<char>) -> IndexEntryView {
    IndexEntryView {
        number: row.number@,
        title: row.title@,
        path: index_path(row.file_path@, path_below(row.file_path@, root)),
        tags: top_tags(texts(row.sn_tags@), texts(row.auto_tags@), texts(row.user_tags@), 3),
    }
}

/// The entry of an article, given what its path is below the directory of the
/// knowledge base.
pub fn index_entry(row: &KnowledgeIndexRow, below: Option<String>) -> (r: IndexEntry)
    ensures
        r@.number == row.number@,
        r@.title == row.title@,
        r@.path == index_path(row.file_path@, text_of(below)),
        r@.tags == top_tags(
            texts(row.sn_tags@),
            texts(row.auto_tags@),
            texts(row.user_tags@),
            3,
        ),
{
    let path: String = match below {
        Some(p) => p,
        None => row.file_path.clone(),
    };
    IndexEntry {
        number: row.number.clone(),
        title: row.title.clone(),
        article_relative_path: path,
        tags: merged_top_tags(&row.sn_tags, &row.auto_tags, &row.user_tags, 3),
    }
}

/// What tells a category from others: its id, then its name.
pub struct CategoryKey {
    pub sys_id: Seq<char>,
    pub name: Seq<char>,
}

pub open spec fn key_less(a: CategoryKey, b: CategoryKey) -> bool {
    text_less(a.sys_id, b.sys_id) || (a.sys_id == b.sys_id && text_less(a.name, b.name))
}

pub open spec fn key_of(c: IndexCategory) -> CategoryKey {
    CategoryKey { sys_id: c.sys_id@, name: c.name@ }
}

pub open spec fn row_key(row: KnowledgeIndexRow) -> CategoryKey {
    CategoryKey { sys_id: row.category_sys_id@, name: row.category_name@ }
}

pub open spec fn of_category(key: CategoryKey) -> spec_fn(KnowledgeIndexRow) -> bool {
    |row: KnowledgeIndexRow| row_key(row) == key
}

pub open spec fn entry_views(entries: Seq<IndexEntry>) -> Seq<IndexEntryView> {
    entries.map_values(|e: IndexEntry| e@)
}

/// The entries of the articles of one category, in their order.
pub open spec fn category_entries(
    rows: Seq<KnowledgeIndexRow>,
    key: CategoryKey,
    root: Seq<char>,
) -> Seq<IndexEntryView> {
    rows.filter(of_category(key)).map_values(|row: KnowledgeIndexRow| entry_of(row, root))
}

/// Whether the categories are those of the articles: each once, in order, with
/// its articles.
pub open spec fn is_grouping(
    categories: Seq<IndexCategory>,
    rows: Seq<KnowledgeIndexRow>,
    root: Seq<char>,
) -> bool {
    &&& forall|i: int, j: int|
        0 <= i < j < categories.len() ==> key_less(
            key_of(#[trigger] categories[i]),
            key_of(#[trigger] categories[j]),
        )
    &&& forall|i: int|
        0 <= i < categories.len() ==> entry_views((#[trigger] categories[i]).entries@)
            == category_entries(rows, key_of(categories[i]), root)
    &&& forall|i: int|
        0 <= i < categories.len() ==> (#[trigger] categories[i]).entries@.len() > 0
    &&& forall|k: int|
        0 <= k < rows.len() ==> has_category(categories, row_key(#[trigger] rows[k]))
}

pub open spec fn has_category(categories: Seq<IndexCategory>, key: CategoryKey) -> bool {
    exists|i: int| 0 <= i < categories.len() && key_of(#[trigger] categories[i]) == key
}

proof fn lemma_key_order(a: CategoryKey, b: CategoryKey, c: CategoryKey)
    ensures
        !key_less(a, a),
        key_less(a, b) && key_less(b, c) ==> key_less(a, c),
        !key_less(a, b) && !key_less(b, a) ==> a == b,
{
    lemma_text_order(a.sys_id, b.sys_id, c.sys_id);
    lemma_text_order(a.name, b.name, c.name);
}

fn key_before(a_id: &str, a_name: &str, b_id: &str, b_name: &str) -> (r: bool)
    ensures
        r == key_less(
            CategoryKey { sys_id: a_id@, name: a_name@ },
            CategoryKey { sys_id: b_id@, name: b_name@ },
        ),
{
    less_text(a_id, b_id) || (same(a_id, b_id) && less_text(a_name, b_name))
}

/// Puts one more article into its category.
fn add_row(
    categories: &mut Vec<IndexCategory>,
    row: &KnowledgeIndexRow,
    entry: IndexEntry,
    Ghost(rows): Ghost<Seq<KnowledgeIndexRow>>,
    Ghost(root): Ghost<Seq<char>>,
)
    requires
        is_grouping(old(categories)@, rows, root),
        entry@ == entry_of(*row, root),
    ensures
        is_grouping(final(categories)@, rows.push(*row), root),
{
    let ghost before = categories@;
    let ghost key = row_key(*row);
    let mut at: usize = 0;
    while at < categories.len() && key_before(
        categories[at].sys_id.as_str(),
        categories[at].name.as_str(),
        row.category_sys_id.as_str(),
        row.category_name.as_str(),
    )
        invariant
            at <= categories@.len(),
            categories@ == before,
            key == row_key(*row),
            forall|i: int| 0 <= i < at ==> key_less(key_of(#[trigger] before[i]), key),
        decreases categories@.len() - at,
    {
        at += 1;
    }
    let ghost longer = rows.push(*row);
    proof {
        assert(longer.subrange(0, longer.len() as int) =~= longer);
        assert(longer.subrange(0, rows.len() as int) =~= rows);
        assert forall|k: CategoryKey| #[trigger]
            category_entries(longer, k, root) == if k == key {
                category_entries(rows, k, root).push(entry@)
            } else {
                category_entries(rows, k, root)
            } by {
            lemma_filter_step(longer, of_category(k), rows.len() as int);
            if k == key {
                assert(category_entries(longer, k, root) =~= category_entries(rows, k, root).push(
                    entry@,
                ));
            }
        }
    }
    let found: bool = at < categories.len() && same(
        categories[at].sys_id.as_str(),
        row.category_sys_id.as_str(),
    ) && same(categories[at].name.as_str(), row.category_name.as_str());
    if found {
        let ghost old_entries = categories@[at as int].entries@;
        let mut c: IndexCategory = categories.remove(at);
        let ghost pulled = c;
        c.entries.push(entry);
        let ghost grown = c;
        categories.insert(at, c);
        proof {
            let after = categories@;
            assert(after =~= before.update(at as int, grown));
            assert(entry_views(grown.entries@) =~= entry_views(old_entries).push(entry@));
            assert forall|i: int| 0 <= i < after.len() implies entry_views(
                (#[trigger] after[i]).entries@,
            ) == category_entries(longer, key_of(after[i]), root) by {
                if i != at {
                    assert(after[i] == before[i]);
                    if i < at {
                        lemma_key_order(key_of(before[i]), key, key);
                    } else {
                        assert(key_less(key_of(before[at as int]), key_of(before[i])));
                        lemma_key_order(key_of(before[i]), key, key);
                    }
                }
            }
            assert forall|k: int| 0 <= k < longer.len() implies has_category(
                after,
                row_key(#[trigger] longer[k]),
            ) by {
                if k < rows.len() {
                    assert(longer[k] == rows[k]);
                    let i = choose|i: int|
                        0 <= i < before.len() && key_of(#[trigger] before[i]) == row_key(rows[k]);
                    assert(key_of(after[i]) == key_of(before[i]));
                } else {
                    assert(key_of(after[at as int]) == key);
                }
            }
            assert forall|i: int, j: int| 0 <= i < j < after.len() implies key_less(
                key_of(#[trigger] after[i]),
                key_of(#[trigger] after[j]),
            ) by {
                assert(key_of(after[i]) == key_of(before[i]));
                assert(key_of(after[j]) == key_of(before[j]));
            }
        }
    } else {
        let mut entries: Vec<IndexEntry> = Vec::new();
        entries.push(entry);
        let c = IndexCategory {
            sys_id: row.category_sys_id.clone(),
            name: row.category_name.clone(),
            entries,
        };
        categories.insert(at, c);
        proof {
            let after = categories@;
            assert(after =~= before.insert(at as int, c));
            assert forall|i: int| at <= i < before.len() implies key_less(
                key,
                key_of(#[trigger] before[i]),
            ) by {
                lemma_key_order(key_of(before[at as int]), key, key);
                lemma_key_order(key, key_of(before[at as int]), key_of(before[i]));
            }
            assert(!has_category(before, key)) by {
                if has_category(before, key) {
                    let i = choose|i: int| 0 <= i < before.len() && key_of(#[trigger] before[i]) == key;
                    lemma_key_order(key, key, key);
                }
            }
            assert(category_entries(rows, key, root) =~= Seq::<IndexEntryView>::empty()) by {
                crate::listing::lemma_filter_sound(rows, of_category(key));
                let kept = rows.filter(of_category(key));
                if kept.len() > 0 {
                    assert(rows.contains(kept[0]));
                    let k = choose|k: int| 0 <= k < rows.len() && rows[k] == kept[0];
                    assert(row_key(rows[k]) == key);
                    assert(has_category(before, row_key(rows[k])));
                }
            }
            assert(entry_views(c.entries@) =~= seq![entry@]);
            assert forall|i: int| 0 <= i < after.len() implies entry_views(
                (#[trigger] after[i]).entries@,
            ) == category_entries(longer, key_of(after[i]), root) by {
                if i < at {
                    assert(after[i] == before[i]);
                    lemma_key_order(key_of(before[i]), key, key);
                } else if i > at {
                    assert(after[i] == before[i - 1]);
                    lemma_key_order(key, key_of(before[i - 1]), key);
                } else {
                    assert(category_entries(rows, key, root).push(entry@) =~= seq![entry@]);
                }
            }
            assert forall|k: int| 0 <= k < longer.len() implies has_category(
                after,
                row_key(#[trigger] longer[k]),
            ) by {
                if k < rows.len() {
                    assert(longer[k] == rows[k]);
                    let i = choose|i: int|
                        0 <= i < before.len() && key_of(#[trigger] before[i]) == row_key(rows[k]);
                    if i < at {
                        assert(after[i] == before[i]);
                    } else {
                        assert(after[i + 1] == before[i]);
                    }
                } else {
                    assert(key_of(after[at as int]) == key);
                }
            }
            assert forall|i: int, j: int| 0 <= i < j < after.len() implies key_less(
                key_of(#[trigger] after[i]),
                key_of(#[trigger] after[j]),
            ) by {
                if i < at {
                    assert(after[i] == before[i]);
                    if j < at {
                        assert(after[j] == before[j]);
                    } else if j > at {
                        assert(after[j] == before[j - 1]);
                    }
                } else if i == at {
                    assert(after[j] == before[j - 1]);
                } else {
                    assert(after[i] == before[i - 1]);
                    assert(after[j] == before[j - 1]);
                }
            }
        }
    }
}

/// The categories of a knowledge base: each with its articles, in order.
pub fn group_rows(rows: &Vec<KnowledgeIndexRow>, base_relative_root: &str) -> (r: Vec<IndexCategory>)
    ensures
        is_grouping(r@, rows@, base_relative_root@),
{
    let mut out: Vec<IndexCategory> = Vec::new();
    let mut i: usize = 0;
    assert(rows@.subrange(0, 0) =~= Seq::<KnowledgeIndexRow>::empty());
    while i < rows.len()
        invariant
            i <= rows@.len(),
            is_grouping(out@, rows@.subrange(0, i as int), base_relative_root@),
        decreases rows@.len() - i,
    {
        let row: &KnowledgeIndexRow = &rows[i];
        let below: Option<String> = relative_from_base_index(
            row.file_path.as_str(),
            base_relative_root,
        );
        let entry: IndexEntry = index_entry(row, below);
        add_row(
            &mut out,
            row,
            entry,
            Ghost(rows@.subrange(0, i as int)),
            Ghost(base_relative_root@),
        );
        proof {
            assert(rows@.subrange(0, i as int).push(*row) =~= rows@.subrange(0, i + 1));
        }
        i += 1;
    }
    assert(rows@.subrange(0, i as int) =~= rows@);
    out
}

/// A page of a knowledge base that holds its articles.
pub open spec fn is_base_page(
    page: Seq<char>,
    base_name: Seq<char>,
    root: Seq<char>,
    rows: Seq<KnowledgeIndexRow>,
) -> bool {
    exists|categories: Seq<IndexCategory>|
        is_grouping(categories, rows, root) && page == #[trigger] base_page(base_name, categories)
}

/// The page of a knowledge base, from its articles.
pub fn render_base_index_from_rows(
    base_name: &str,
    base_relative_root: &str,
    rows: &Vec<KnowledgeIndexRow>,
) -> (r: String)
    ensures
        is_base_page(r@, base_name@, base_relative_root@, rows@),
{
    let categories: Vec<IndexCategory> = group_rows(rows, base_relative_root);
    let ghost list = categories@;
    let r: String = render_base_index(base_name, categories);
    assert(r@ == base_page(base_name@, list));
    r
}

// --- the page of all knowledge bases ---

/// One category of the page of all knowledge bases. The anchor is where it
/// stands on the page of its knowledge base.
#[derive(Debug, Clone, PartialEq, Eq)]
pub struct CategoryCount {
    pub sys_id: String,
    pub name: String,
    pub anchor: String,
    pub article_count: usize,
}

/// Categories are ordered by id, then by name.
impl Ranked for CategoryCount {
    open spec fn before(self, other: Self) -> bool {
        key_less(
            CategoryKey { sys_id: self.sys_id@, name: self.name@ },
            CategoryKey { sys_id: other.sys_id@, name: other.name@ },
        )
    }

    proof fn rank_laws(a: Self, b: Self, c: Self) {
        lemma_text_order(a.sys_id@, b.sys_id@, c.sys_id@);
        lemma_text_order(b.sys_id@, a.sys_id@, b.sys_id@);
        lemma_text_order(c.sys_id@, b.sys_id@, a.sys_id@);
        lemma_text_order(a.name@, b.name@, c.name@);
        lemma_text_order(b.sys_id@, c.sys_id@, b.sys_id@);
        lemma_text_order(a.sys_id@, c.sys_id@, a.sys_id@);
    }

    fn precedes(&self, other: &Self) -> (r: bool) {
        key_before(
            self.sys_id.as_str(),
            self.name.as_str(),
            other.sys_id.as_str(),
            other.name.as_str(),
        )
    }
}

/// One knowledge base: `dir_name` is its directory in the vault.
#[derive(Debug, Clone, PartialEq, Eq)]
pub struct BaseGroup {
    pub sys_id: String,
    pub name: String,
    pub dir_name: String,
    pub categories: Vec<CategoryCount>,
}

/// Knowledge bases are ordered by id, then by name, then by directory.
impl Ranked for BaseGroup {
    open spec fn before(self, other: Self) -> bool {
        text_less(self.sys_id@, other.sys_id@) || (self.sys_id@ == other.sys_id@ && (text_less(
            self.name@,
            other.name@,
        ) || (self.name@ == other.name@ && text_less(self.dir_name@, other.dir_name@))))
    }

    proof fn rank_laws(a: Self, b: Self, c: Self) {
        lemma_text_order(a.sys_id@, b.sys_id@, c.sys_id@);
        lemma_text_order(b.sys_id@, a.sys_id@, b.sys_id@);
        lemma_text_order(b.sys_id@, c.sys_id@, b.sys_id@);
        lemma_text_order(c.sys_id@, b.sys_id@, a.sys_id@);
        lemma_text_order(a.sys_id@, c.sys_id@, a.sys_id@);
        lemma_text_order(a.name@, b.name@, c.name@);
        lemma_text_order(b.name@, a.name@, b.name@);
        lemma_text_order(b.name@, c.name@, b.name@);
        lemma_text_order(c.name@, b.name@, a.name@);
        lemma_text_order(a.name@, c.name@, a.name@);
        lemma_text_order(a.dir_name@, b.dir_name@, c.dir_name@);
    }

    fn precedes(&self, other: &Self) -> (r: bool) {
        less_text(self.sys_id.as_str(), other.sys_id.as_str()) || (same(
            self.sys_id.as_str(),
            other.sys_id.as_str(),
        ) && (less_text(self.name.as_str(), other.name.as_str()) || (same(
            self.name.as_str(),
            other.name.as_str(),
        ) && less_text(self.dir_name.as_str(), other.dir_name.as_str()))))
    }
}

/// The articles of a list of categories together.
pub open spec fn count_sum(categories: Seq<CategoryCount>) -> nat
    decreases categories.len(),
{
    if categories.len() == 0 {
        0
    } else {
        count_sum(categories.drop_last()) + categories.last().article_count as nat
    }
}

/// The articles of a list of knowledge bases together.
pub open spec fn base_sum(groups: Seq<BaseGroup>) -> nat
    decreases groups.len(),
{
    if groups.len() == 0 {
        0
    } else {
        base_sum(groups.drop_last()) + count_sum(groups.last().categories@)
    }
}

fn sum_counts(categories: &Vec<CategoryCount>) -> (r: usize)
    requires
        count_sum(categories@) <= usize::MAX,
    ensures
        r == count_sum(categories@),
{
    let mut n: usize = 0;
    let mut i: usize = 0;
    assert(categories@.subrange(0, 0) =~= Seq::<CategoryCount>::empty());
    while i < categories.len()
        invariant
            i <= categories@.len(),
            count_sum(categories@) <= usize::MAX,
            n == count_sum(categories@.subrange(0, i as int)),
        decreases categories@.len() - i,
    {
        proof {
            let longer = categories@.subrange(0, i + 1);
            assert(longer.drop_last() =~= categories@.subrange(0, i as int));
            assert(longer.last() == categories@[i as int]);
            lemma_count_sum_grows(categories@, i + 1);
        }
        n += categories[i].article_count;
        i += 1;
    }
    assert(categories@.subrange(0, i as int) =~= categories@);
    n
}

proof fn lemma_count_sum_grows(categories: Seq<CategoryCount>, k: int)
    requires
        0 <= k <= categories.len(),
    ensures
        count_sum(categories.subrange(0, k)) <= count_sum(categories),
    decreases categories.len(),
{
    if k == categories.len() {
        assert(categories.subrange(0, k) =~= categories);
    } else {
        lemma_count_sum_grows(categories.drop_last(), k);
        assert(categories.drop_last().subrange(0, k) =~= categories.subrange(0, k));
    }
}

proof fn lemma_base_sum_grows(groups: Seq<BaseGroup>, k: int)
    requires
        0 <= k <= groups.len(),
    ensures
        base_sum(groups.subrange(0, k)) <= base_sum(groups),
    decreases groups.len(),
{
    if k == groups.len() {
        assert(groups.subrange(0, k) =~= groups);
    } else {
        lemma_base_sum_grows(groups.drop_last(), k);
        assert(groups.drop_last().subrange(0, k) =~= groups.subrange(0, k));
    }
}

fn sum_groups(groups: &Vec<BaseGroup>) -> (r: usize)
    requires
        base_sum(groups@) <= usize::MAX,
    ensures
        r == base_sum(groups@),
{
    let mut n: usize = 0;
    let mut i: usize = 0;
    assert(groups@.subrange(0, 0) =~= Seq::<BaseGroup>::empty());
    while i < groups.len()
        invariant
            i <= groups@.len(),
            base_sum(groups@) <= usize::MAX,
            n == base_sum(groups@.subrange(0, i as int)),
        decreases groups@.len() - i,
    {
        proof {
            let longer = groups@.subrange(0, i + 1);
            assert(longer.drop_last() =~= groups@.subrange(0, i as int));
            assert(longer.last() == groups@[i as int]);
            lemma_base_sum_grows(groups@, i + 1);
        }
        n += sum_counts(&groups[i].categories);
        i += 1;
    }
    assert(groups@.subrange(0, i as int) =~= groups@);
    n
}

/// The line of one category.
pub open spec fn category_line(dir_name: Seq<char>, c: CategoryCount) -> Seq<char> {
    "- **["@ + c.name@ + "](bases/"@ + dir_name + "/INDEX.md#"@ + c.anchor@ + ")** ("@ + decimal(
        c.article_count as nat,
    ) + ")\n"@
}

pub open spec fn category_lines(dir_name: Seq<char>, categories: Seq<CategoryCount>) -> Seq<Seq<char>> {
    categories.map_values(|c: CategoryCount| category_line(dir_name, c))
}

/// The part of one knowledge base.
pub open spec fn group_part(g: BaseGroup) -> Seq<char> {
    "## "@ + g.name@ + " ("@ + decimal(count_sum(g.categories@)) + ")\n"@ + concatenated(
        category_lines(g.dir_name@, g.categories@),
    ) + "\n"@
}

pub open spec fn group_parts(groups: Seq<BaseGroup>) -> Seq<Seq<char>> {
    groups.map_values(|g: BaseGroup| group_part(g))
}

fn render_group(g: &BaseGroup) -> (r: String)
    requires
        count_sum(g.categories@) <= usize::MAX,
    ensures
        r@ == group_part(*g),
{
    let mut out: String = "## ".to_owned();
    out.append(g.name.as_str());
    out.append(" (");
    out.append(decimal_text(sum_counts(&g.categories) as u64).as_str());
    out.append(")\n");
    let ghost head = out@;
    let ghost lines = category_lines(g.dir_name@, g.categories@);
    let mut i: usize = 0;
    assert(lines.subrange(0, 0) =~= Seq::<Seq<char>>::empty());
    assert(out@ =~= head + concatenated(lines.subrange(0, 0)));
    while i < g.categories.len()
        invariant
            i <= g.categories@.len(),
            lines == category_lines(g.dir_name@, g.categories@),
            out@ == head + concatenated(lines.subrange(0, i as int)),
        decreases g.categories@.len() - i,
    {
        let c: &CategoryCount = &g.categories[i];
        let ghost before = out@;
        let mut line: String = "- **[".to_owned();
        line.append(c.name.as_str());
        line.append("](bases/");
        line.append(g.dir_name.as_str());
        line.append("/INDEX.md#");
        line.append(c.anchor.as_str());
        line.append(")** (");
        line.append(decimal_text(c.article_count as u64).as_str());
        line.append(")\n");
        out.append(line.as_str());
        proof {
            let longer = lines.subrange(0, i + 1);
            assert(longer.drop_last() =~= lines.subrange(0, i as int));
            assert(longer.last() == line@);
            assert(out@ =~= head + concatenated(longer));
        }
        i += 1;
    }
    assert(lines.subrange(0, i as int) =~= lines);
    out.append("\n");
    out
}

/// A tag with its number.
pub open spec fn tag_note(t: KnowledgeTagSummary) -> Seq<char> {
    "`"@ + t.tag@ + "` ("@ + decimal(t.count as nat) + ")"@
}

pub open spec fn tag_notes(tags: Seq<KnowledgeTagSummary>) -> Seq<Seq<char>> {
    tags.map_values(|t: KnowledgeTagSummary| tag_note(t))
}

/// The first tags, at most fifty.
pub open spec fn first_fifty(tags: Seq<KnowledgeTagSummary>) -> Seq<KnowledgeTagSummary> {
    if tags.len() <= 50 {
        tags
    } else {
        tags.subrange(0, 50)
    }
}

/// The page of all knowledge bases; `stamp` says when they were last read.
pub open spec fn global_page(
    groups: Seq<BaseGroup>,
    tags: Seq<KnowledgeTagSummary>,
    stamp: Seq<char>,
) -> Seq<char> {
    let top = first_fifty(tags);
    "# ServiceNow Knowledge Catalog\n\n"@ + "_Last synced: "@ + stamp + " \u{b7} "@ + decimal(
        base_sum(groups),
    ) + " articles across "@ + decimal(groups.len()) + " knowledge bases_\n\n"@ + concatenated(
        group_parts(groups),
    ) + (if top.len() == 0 {
        Seq::empty()
    } else {
        "## All tags (top 50)\n"@ + joined_with(tag_notes(top), " \u{b7} "@) + "\n"@
    })
}

/// Renders the page of all knowledge bases, given the text of the time.
pub fn render_global_index_at(
    groups: &Vec<BaseGroup>,
    tags: &Vec<KnowledgeTagSummary>,
    stamp: &str,
) -> (r: String)
    requires
        base_sum(groups@) <= usize::MAX,
    ensures
        r@ == global_page(groups@, tags@, stamp@),
{
    let mut out: String = "# ServiceNow Knowledge Catalog\n\n".to_owned();
    out.append("_Last synced: ");
    out.append(stamp);
    out.append(" \u{b7} ");
    out.append(decimal_text(sum_groups(groups) as u64).as_str());
    out.append(" articles across ");
    out.append(decimal_text(groups.len() as u64).as_str());
    out.append(" knowledge bases_\n\n");
    let ghost head = out@;
    let ghost parts = group_parts(groups@);
    let mut i: usize = 0;
    assert(parts.subrange(0, 0) =~= Seq::<Seq<char>>::empty());
    assert(out@ =~= head + concatenated(parts.subrange(0, 0)));
    while i < groups.len()
        invariant
            i <= groups@.len(),
            base_sum(groups@) <= usize::MAX,
            parts == group_parts(groups@),
            out@ == head + concatenated(parts.subrange(0, i as int)),
        decreases groups@.len() - i,
    {
        proof {
            let longer = groups@.subrange(0, i + 1);
            assert(longer.drop_last() =~= groups@.subrange(0, i as int));
            assert(longer.last() == groups@[i as int]);
            lemma_base_sum_grows(groups@, i + 1);
        }
        let part: String = render_group(&groups[i]);
        out.append(part.as_str());
        proof {
            let longer = parts.subrange(0, i + 1);
            assert(longer.drop_last() =~= parts.subrange(0, i as int));
            assert(longer.last() == part@);
            assert(out@ =~= head + concatenated(longer));
        }
        i += 1;
    }
    assert(parts.subrange(0, i as int) =~= parts);
    let ghost front = out@;
    let mut notes: Vec<String> = Vec::new();
    let ghost top = first_fifty(tags@);
    let mut k: usize = 0;
    assert(texts(notes@) =~= tag_notes(top.subrange(0, 0)));
    while k < tags.len() && k < 50
        invariant
            k <= tags@.len(),
            k <= 50,
            top == first_fifty(tags@),
            texts(notes@) == tag_notes(top.subrange(0, k as int)),
            notes@.len() == k,
        decreases 50 - k,
    {
        let mut note: String = "`".to_owned();
        note.append(tags[k].tag.as_str());
        note.append("` (");
        note.append(decimal_text(tags[k].count as u64).as_str());
        note.append(")");
        proof {
            assert(top[k as int] == tags@[k as int]);
            lemma_texts_push(notes@, note);
            assert(tag_notes(top.subrange(0, k + 1)) =~= tag_notes(top.subrange(0, k as int)).push(
                note@,
            ));
        }
        notes.push(note);
        k += 1;
    }
    assert(top.subrange(0, k as int) =~= top);
    if notes.len() > 0 {
        let list: String = join_texts(&notes, " \u{b7} ");
        out.append("## All tags (top 50)\n");
        out.append(list.as_str());
        out.append("\n");
        assert(out@ =~= front + ("## All tags (top 50)\n"@ + list@ + "\n"@));
    } else {
        assert(out@ =~= front + Seq::<char>::empty());
    }
    out
}

/// Renders the page of all knowledge bases. The time is in seconds since 1970;
/// where it cannot be written there is no page.
pub fn render_global_index(
    groups: &Vec<BaseGroup>,
    tags: &Vec<KnowledgeTagSummary>,
    last_synced: i64,
) -> (r: Option<String>)
    requires
        base_sum(groups@) <= usize::MAX,
    ensures
        match minute_text(last_synced) {
            Some(stamp) => text_of(r) == Some(global_page(groups@, tags@, stamp)),
            None => r is None,
        },
{
    match format_minute(last_synced) {
        Some(stamp) => Some(render_global_index_at(groups, tags, stamp.as_str())),
        None => None,
    }
}

/// The items without those that the next one ranks alike with: of several under
/// one key the last counts.
pub open spec fn last_of_runs<T: Ranked>(items: Seq<T>) -> Seq<T>
    decreases items.len(),
{
    if items.len() == 0 {
        Seq::empty()
    } else {
        let front = last_of_runs(items.drop_last());
        if front.len() > 0 && !front.last().before(items.last()) {
            front.drop_last().push(items.last())
        } else {
            front.push(items.last())
        }
    }
}

fn keep_last_of_runs<T: Ranked>(items: Vec<T>) -> (r: Vec<T>)
    ensures
        r@ == last_of_runs(items@),
{
    let ghost all = items@;
    let mut rest: Vec<T> = items;
    let mut out: Vec<T> = Vec::new();
    let ghost mut done: int = 0;
    assert(all.subrange(0, all.len() as int) =~= all);
    while rest.len() > 0
        invariant
            0 <= done <= all.len(),
            rest@ == all.subrange(done, all.len() as int),
            out@ == last_of_runs(all.subrange(0, done)),
        decreases rest@.len(),
    {
        let item: T = rest.remove(0);
        proof {
            assert(item == all[done]);
            let longer = all.subrange(0, done + 1);
            assert(longer.drop_last() =~= all.subrange(0, done));
            assert(longer.last() == item);
            done = done + 1;
            assert(rest@ =~= all.subrange(done, all.len() as int));
        }
        let n: usize = out.len();
        if n > 0 && !out[n - 1].precedes(&item) {
            out.pop();
        }
        out.push(item);
    }
    assert(all.subrange(0, done) =~= all);
    out
}

/// The categories of the page: in order, of two under one key the later.
pub open spec fn ordered_categories(categories: Seq<CategoryCount>) -> Seq<CategoryCount> {
    last_of_runs(sorted(categories))
}

/// A knowledge base with its categories in order.
pub fn base_group(
    sys_id: String,
    name: String,
    dir_name: String,
    categories: Vec<CategoryCount>,
) -> (r: BaseGroup)
    ensures
        r.sys_id == sys_id,
        r.name == name,
        r.dir_name == dir_name,
        r.categories@ == ordered_categories(categories@),
{
    let in_order: Vec<CategoryCount> = sort(categories);
    BaseGroup { sys_id, name, dir_name, categories: keep_last_of_runs(in_order) }
}

/// The knowledge bases of the page: in order, of two under one key the later.
pub fn order_groups(groups: Vec<BaseGroup>) -> (r: Vec<BaseGroup>)
    ensures
        r@ == last_of_runs(sorted(groups@)),
{
    let in_order: Vec<BaseGroup> = sort(groups);
    keep_last_of_runs(in_order)
}

/// What becomes of the page of a knowledge base.
#[derive(Debug, Clone, PartialEq, Eq)]
pub enum PageFate {
    Write(String),
    /// The knowledge base has no articles: its page goes.
    Drop,
}

/// The page of a knowledge base that is built anew from its articles.
pub fn base_page_fate(
    base_name: &str,
    base_relative_root: &str,
    rows: &Vec<KnowledgeIndexRow>,
) -> (r: PageFate)
    ensures
        match r {
            PageFate::Drop => rows@.len() == 0,
            PageFate::Write(page) => rows@.len() > 0 && is_base_page(
                page@,
                base_name@,
                base_relative_root@,
                rows@,
            ),
        },
{
    if rows.is_empty() {
        PageFate::Drop
    } else {
        PageFate::Write(render_base_index_from_rows(base_name, base_relative_root, rows))
    }
}

// --- which pages are written anew ---

/// A knowledge base that has articles; `dir_name` is its directory.
#[derive(Debug, Clone, PartialEq, Eq)]
pub struct ActiveBase {
    pub sys_id: String,
    pub name: String,
    pub dir_name: String,
}

/// What is to be done with the index pages.
#[derive(Debug, Clone, PartialEq, Eq)]
pub enum IndexStep {
    /// The directory belongs to no knowledge base: its page goes.
    DropStale { dir_name: String },
    /// The knowledge base has no articles: its page goes.
    DropEmpty { base_sys_id: String, dir_name: String },
    /// The page is written from the articles of the knowledge base.
    Rebuild { base_sys_id: String, base_name: String, dir_name: String },
}

pub enum IndexStepView {
    DropStale { dir_name: Seq<char> },
    DropEmpty { base_sys_id: Seq<char>, dir_name: Seq<char> },
    Rebuild { base_sys_id: Seq<char>, base_name: Seq<char>, dir_name: Seq<char> },
}

impl View for IndexStep {
    type V = IndexStepView;

    open spec fn view(&self) -> IndexStepView {
        match *self {
            IndexStep::DropStale { dir_name } => IndexStepView::DropStale { dir_name: dir_name@ },
            IndexStep::DropEmpty { base_sys_id, dir_name } => IndexStepView::DropEmpty {
                base_sys_id: base_sys_id@,
                dir_name: dir_name@,
            },
            IndexStep::Rebuild { base_sys_id, base_name, dir_name } => IndexStepView::Rebuild {
                base_sys_id: base_sys_id@,
                base_name: base_name@,
                dir_name: dir_name@,
            },
        }
    }
}

pub open spec fn step_views(steps: Seq<IndexStep>) -> Seq<IndexStepView> {
    steps.map_values(|s: IndexStep| s@)
}

pub open spec fn is_active_dir(bases: Seq<ActiveBase>, dir: Seq<char>) -> bool {
    exists|i: int| 0 <= i < bases.len() && (#[trigger] bases[i]).dir_name@ == dir
}

/// The steps for the directories that belong to no knowledge base.
pub open spec fn stale_steps(bases: Seq<ActiveBase>, dirs: Seq<Seq<char>>) -> Seq<IndexStepView>
    decreases dirs.len(),
{
    if dirs.len() == 0 {
        Seq::empty()
    } else if is_active_dir(bases, dirs.last()) {
        stale_steps(bases, dirs.drop_last())
    } else {
        stale_steps(bases, dirs.drop_last()).push(
            IndexStepView::DropStale { dir_name: dirs.last() },
        )
    }
}

/// The last knowledge base in the list with the id.
pub open spec fn active_base(bases: Seq<ActiveBase>, id: Seq<char>) -> Option<ActiveBase>
    decreases bases.len(),
{
    if bases.len() == 0 {
        None
    } else if bases.last().sys_id@ == id {
        Some(bases.last())
    } else {
        active_base(bases.drop_last(), id)
    }
}

/// Whether a directory is named after the knowledge base with the id.
pub open spec fn is_base_dir(dir: Seq<char>, id: Seq<char>) -> bool {
    dir == "kb_"@ + id || has_prefix(dir, "kb_"@ + id + "_"@)
}

/// The first directory that is named after the knowledge base.
pub open spec fn base_dir(dirs: Seq<Seq<char>>, id: Seq<char>, i: int) -> Option<Seq<char>>
    decreases dirs.len() - i,
{
    if i >= dirs.len() {
        None
    } else if is_base_dir(dirs[i], id) {
        Some(dirs[i])
    } else {
        base_dir(dirs, id, i + 1)
    }
}

pub fn find_base_directory_by_sys_id(dirs: &Vec<String>, base_sys_id: &str) -> (r: Option<String>)
    ensures
        text_of(r) == base_dir(texts(dirs@), base_sys_id@, 0),
{
    let exact: String = crate::text::joined("kb_", base_sys_id);
    let prefix: String = joined3("kb_", base_sys_id, "_");
    let mut i: usize = 0;
    while i < dirs.len()
        invariant
            i <= dirs@.len(),
            exact@ == "kb_"@ + base_sys_id@,
            prefix@ == "kb_"@ + base_sys_id@ + "_"@,
            base_dir(texts(dirs@), base_sys_id@, 0) == base_dir(
                texts(dirs@),
                base_sys_id@,
                i as int,
            ),
        decreases dirs@.len() - i,
    {
        if same(dirs[i].as_str(), exact.as_str()) || starts_with_text(
            dirs[i].as_str(),
            prefix.as_str(),
        ) {
            return Some(dirs[i].clone());
        }
        i += 1;
    }
    None
}

/// The step for one knowledge base, if there is any.
pub open spec fn base_step(bases: Seq<ActiveBase>, dirs: Seq<Seq<char>>, id: Seq<char>) -> Option<
    IndexStepView,
> {
    match active_base(bases, id) {
        Some(base) => Some(
            IndexStepView::Rebuild {
                base_sys_id: id,
                base_name: base.name@,
                dir_name: base.dir_name@,
            },
        ),
        None => match base_dir(dirs, id, 0) {
            Some(dir) => Some(IndexStepView::DropEmpty { base_sys_id: id, dir_name: dir }),
            None => None,
        },
    }
}

pub open spec fn base_steps(
    bases: Seq<ActiveBase>,
    dirs: Seq<Seq<char>>,
    ids: Seq<Seq<char>>,
) -> Seq<IndexStepView>
    decreases ids.len(),
{
    if ids.len() == 0 {
        Seq::empty()
    } else {
        match base_step(bases, dirs, ids.last()) {
            Some(step) => base_steps(bases, dirs, ids.drop_last()).push(step),
            None => base_steps(bases, dirs, ids.drop_last()),
        }
    }
}

pub open spec fn base_ids(bases: Seq<ActiveBase>) -> Seq<Seq<char>> {
    bases.map_values(|b: ActiveBase| b.sys_id@)
}

/// The steps of a rebuild: after a full pass every page, and the pages of
/// directories that belong to no knowledge base; else only those of the changed
/// knowledge bases.
pub open spec fn index_steps(
    mode: KnowledgeSyncMode,
    bases: Seq<ActiveBase>,
    dirs: Seq<Seq<char>>,
    changed: Seq<Seq<char>>,
) -> Seq<IndexStepView> {
    match mode {
        KnowledgeSyncMode::Full => stale_steps(bases, dirs) + base_steps(
            bases,
            dirs,
            base_ids(bases),
        ),
        KnowledgeSyncMode::Incremental => base_steps(bases, dirs, changed),
    }
}

fn active_dir(bases: &Vec<ActiveBase>, dir: &str) -> (r: bool)
    ensures
        r == is_active_dir(bases@, dir@),
{
    let mut i: usize = 0;
    while i < bases.len()
        invariant
            i <= bases@.len(),
            forall|k: int| 0 <= k < i ==> (#[trigger] bases@[k]).dir_name@ != dir@,
        decreases bases@.len() - i,
    {
        if same(bases[i].dir_name.as_str(), dir) {
            return true;
        }
        i += 1;
    }
    false
}

fn find_active(bases: &Vec<ActiveBase>, id: &str) -> (r: Option<usize>)
    ensures
        match r {
            Some(i) => i < bases@.len() && active_base(bases@, id@) == Some(bases@[i as int]),
            None => active_base(bases@, id@) is None,
        },
{
    let mut n: usize = bases.len();
    assert(bases@.subrange(0, n as int) =~= bases@);
    while n > 0
        invariant
            n <= bases@.len(),
            active_base(bases@, id@) == active_base(bases@.subrange(0, n as int), id@),
        decreases n,
    {
        proof {
            assert(bases@.subrange(0, n as int).drop_last() =~= bases@.subrange(0, n - 1));
            assert(bases@.subrange(0, n as int).last() == bases@[n - 1]);
        }
        if same(bases[n - 1].sys_id.as_str(), id) {
            return Some(n - 1);
        }
        n -= 1;
    }
    None
}

fn plan_bases(bases: &Vec<ActiveBase>, dirs: &Vec<String>, ids: &Vec<String>) -> (r: Vec<IndexStep>)
    ensures
        step_views(r@) == base_steps(bases@, texts(dirs@), texts(ids@)),
{
    let ghost all = texts(ids@);
    let mut out: Vec<IndexStep> = Vec::new();
    let mut i: usize = 0;
    proof {
        assert(all.subrange(0, 0) =~= Seq::<Seq<char>>::empty());
        assert(step_views(out@) =~= Seq::<IndexStepView>::empty());
    }
    while i < ids.len()
        invariant
            i <= ids@.len(),
            all == texts(ids@),
            step_views(out@) == base_steps(bases@, texts(dirs@), all.subrange(0, i as int)),
        decreases ids@.len() - i,
    {
        let ghost before = out@;
        proof {
            let longer = all.subrange(0, i + 1);
            assert(longer.drop_last() =~= all.subrange(0, i as int));
            assert(longer.last() == ids@[i as int]@);
        }
        match find_active(bases, ids[i].as_str()) {
            Some(k) => {
                let step = IndexStep::Rebuild {
                    base_sys_id: ids[i].clone(),
                    base_name: bases[k].name.clone(),
                    dir_name: bases[k].dir_name.clone(),
                };
                out.push(step);
                assert(step_views(out@) =~= step_views(before).push(step@));
            },
            None => match find_base_directory_by_sys_id(dirs, ids[i].as_str()) {
                Some(dir) => {
                    let step = IndexStep::DropEmpty { base_sys_id: ids[i].clone(), dir_name: dir };
                    out.push(step);
                    assert(step_views(out@) =~= step_views(before).push(step@));
                },
                None => {},
            },
        }
        i += 1;
    }
    assert(all.subrange(0, i as int) =~= all);
    out
}

/// Plans a rebuild of the index pages. `dirs` are the directories that are
/// there, `changed` the knowledge bases that have changed.
pub fn plan_indexes(
    mode: KnowledgeSyncMode,
    bases: &Vec<ActiveBase>,
    dirs: &Vec<String>,
    changed: &Vec<String>,
) -> (r: Vec<IndexStep>)
    ensures
        step_views(r@) == index_steps(mode, bases@, texts(dirs@), texts(changed@)),
{
    match mode {
        KnowledgeSyncMode::Incremental => plan_bases(bases, dirs, changed),
        KnowledgeSyncMode::Full => {
            let ghost all = texts(dirs@);
            let mut out: Vec<IndexStep> = Vec::new();
            let mut i: usize = 0;
            proof {
                assert(all.subrange(0, 0) =~= Seq::<Seq<char>>::empty());
                assert(step_views(out@) =~= Seq::<IndexStepView>::empty());
            }
            while i < dirs.len()
                invariant
                    i <= dirs@.len(),
                    all == texts(dirs@),
                    step_views(out@) == stale_steps(bases@, all.subrange(0, i as int)),
                decreases dirs@.len() - i,
            {
                let ghost before = out@;
                proof {
                    let longer = all.subrange(0, i + 1);
                    assert(longer.drop_last() =~= all.subrange(0, i as int));
                    assert(longer.last() == dirs@[i as int]@);
                }
                if !active_dir(bases, dirs[i].as_str()) {
                    let step = IndexStep::DropStale { dir_name: dirs[i].clone() };
                    out.push(step);
                    assert(step_views(out@) =~= step_views(before).push(step@));
                }
                i += 1;
            }
            assert(all.subrange(0, i as int) =~= all);
            let mut ids: Vec<String> = Vec::new();
            let mut k: usize = 0;
            assert(texts(ids@) =~= base_ids(bases@.subrange(0, 0)));
            while k < bases.len()
                invariant
                    k <= bases@.len(),
                    texts(ids@) == base_ids(bases@.subrange(0, k as int)),
                decreases bases@.len() - k,
            {
                let id: String = bases[k].sys_id.clone();
                proof {
                    lemma_texts_push(ids@, id);
                    assert(base_ids(bases@.subrange(0, k + 1)) =~= base_ids(
                        bases@.subrange(0, k as int),
                    ).push(id@));
                }
                ids.push(id);
                k += 1;
            }
            assert(bases@.subrange(0, k as int) =~= bases@);
            let ghost stale = out@;
            let mut rest: Vec<IndexStep> = plan_bases(bases, dirs, &ids);
            let ghost more = rest@;
            out.append(&mut rest);
            assert(step_views(out@) =~= step_views(stale) + step_views(more));
            out
        },
    }
}

/// The knowledge base that a step is about.
pub open spec fn step_base(step: IndexStepView) -> Option<Seq<char>> {
    match step {
        IndexStepView::DropStale { dir_name } => None,
        IndexStepView::DropEmpty { base_sys_id, dir_name } => Some(base_sys_id),
        IndexStepView::Rebuild { base_sys_id, base_name, dir_name } => Some(base_sys_id),
    }
}

/// An incremental pass touches the pages of changed knowledge bases only.
pub proof fn incremental_rebuilds_touch_changed_bases_only(
    bases: Seq<ActiveBase>,
    dirs: Seq<Seq<char>>,
    changed: Seq<Seq<char>>,
)
    ensures
        forall|i: int|
            0 <= i < index_steps(KnowledgeSyncMode::Incremental, bases, dirs, changed).len()
                ==> step_base(
                #[trigger] index_steps(KnowledgeSyncMode::Incremental, bases, dirs, changed)[i],
            ) is Some && changed.contains(
                step_base(
                    index_steps(KnowledgeSyncMode::Incremental, bases, dirs, changed)[i],
                )->0,
            ),
    decreases changed.len(),
{
    let steps = base_steps(bases, dirs, changed);
    if changed.len() > 0 {
        let front = changed.drop_last();
        incremental_rebuilds_touch_changed_bases_only(bases, dirs, front);
        let before = base_steps(bases, dirs, front);
        assert forall|i: int| 0 <= i < steps.len() implies step_base(#[trigger] steps[i]) is Some
            && changed.contains(step_base(steps[i])->0) by {
            if i < before.len() {
                assert(steps[i] == before[i]);
                assert(before[i] == index_steps(
                    KnowledgeSyncMode::Incremental,
                    bases,
                    dirs,
                    front,
                )[i]);
                let id = step_base(before[i])->0;
                let k = choose|k: int| 0 <= k < front.len() && front[k] == id;
                assert(changed[k] == id);
            } else {
                assert(changed[changed.len() - 1] == step_base(steps[i])->0);
            }
        }
    }
}

} // verus!
