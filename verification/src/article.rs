//! Knowledge articles, and what is kept of one when it is read again.
use vstd::prelude::*;
use vstd::string::*;

use crate::order::{sort, sorted, Ranked};
use crate::tags::{layer_tags, normalize_tag_layer};
use crate::text::{
    lemma_text_order, less_text, same, same_any_case, same_ignoring_case, text_less, texts, trim,
    trim_text,
};
use crate::types::{FieldValue, NamedField, NamedReference, Reference, SnowRecord};

verus! {

#[derive(Debug, Clone, PartialEq, Eq)]
pub struct KnowledgeArticle {
    pub record: SnowRecord,
    pub knowledge_base: Reference,
    pub category: Reference,
    pub article_type: String,
    pub content: String,
    pub sn_tags: Vec<String>,
    pub auto_tags: Vec<String>,
    pub user_tags: Vec<String>,
    pub body_cached: bool,
    /// Seconds since 1970.
    pub published_at: Option<i64>,
    pub author: Option<Reference>,
    /// A date, written `YYYY-MM-DD`.
    pub valid_to: Option<String>,
}

/// The references of an article under labels that a reader can use.
#[derive(Debug, Clone, PartialEq, Eq)]
pub struct ArticleReferences {
    pub knowledge_base: Reference,
    pub category: Reference,
    pub author: Option<Reference>,
}

/// Whether a text holds nothing but white space.
pub open spec fn is_blank(s: Seq<char>) -> bool {
    trim(s).len() == 0
}

pub fn blank(s: &str) -> (r: bool)
    ensures
        r == is_blank(s@),
{
    trim_text(s).as_str().unicode_len() == 0
}

/// The label of a reference, where it has one.
pub open spec fn label_of(reference: Reference) -> Option<Seq<char>> {
    if reference.display_name@.len() == 0 {
        None
    } else {
        Some(reference.display_name@)
    }
}

fn label(reference: &Reference) -> (r: Option<String>)
    ensures
        crate::text::text_of(r) == label_of(*reference),
{
    if reference.display_name.as_str().unicode_len() == 0 {
        None
    } else {
        Some(reference.display_name.clone())
    }
}

/// What a field of the article shows: the labels of its references stand in
/// the fields of the same name.
pub open spec fn shown_label(field: NamedField, refs: ArticleReferences) -> Option<Seq<char>> {
    if field.name@ == "knowledge_base"@ {
        label_of(refs.knowledge_base)
    } else if field.name@ == "category"@ {
        label_of(refs.category)
    } else if field.name@ == "author"@ {
        match refs.author {
            Some(author) => label_of(author),
            None => None,
        }
    } else {
        crate::text::text_of(field.field.display_value)
    }
}

pub open spec fn is_relabelled(
    after: Seq<NamedField>,
    before: Seq<NamedField>,
    refs: ArticleReferences,
) -> bool {
    &&& after.len() == before.len()
    &&& forall|i: int|
        0 <= i < after.len() ==> (#[trigger] after[i]).name == before[i].name
            && after[i].field.value == before[i].field.value && crate::text::text_of(
            after[i].field.display_value,
        ) == shown_label(before[i], refs)
}

fn relabel(fields: Vec<NamedField>, refs: &ArticleReferences) -> (r: Vec<NamedField>)
    ensures
        is_relabelled(r@, fields@, *refs),
{
    let ghost all = fields@;
    let mut rest: Vec<NamedField> = fields;
    let mut out: Vec<NamedField> = Vec::new();
    let ghost mut done: int = 0;
    assert(all.subrange(0, all.len() as int) =~= all);
    while rest.len() > 0
        invariant
            0 <= done <= all.len(),
            rest@ == all.subrange(done, all.len() as int),
            is_relabelled(out@, all.subrange(0, done), *refs),
        decreases rest@.len(),
    {
        let f: NamedField = rest.remove(0);
        assert(f == all[done]);
        let ghost before = out@;
        let shown: Option<String> = if same(f.name.as_str(), "knowledge_base") {
            label(&refs.knowledge_base)
        } else if same(f.name.as_str(), "category") {
            label(&refs.category)
        } else if same(f.name.as_str(), "author") {
            match &refs.author {
                Some(author) => label(author),
                None => None,
            }
        } else {
            f.field.display_value
        };
        out.push(
            NamedField {
                name: f.name,
                field: FieldValue { value: f.field.value, display_value: shown },
            },
        );
        proof {
            let longer = all.subrange(0, done + 1);
            assert forall|i: int| 0 <= i < out@.len() implies (#[trigger] out@[i]).name
                == longer[i].name && out@[i].field.value == longer[i].field.value
                && crate::text::text_of(out@[i].field.display_value) == shown_label(
                longer[i],
                *refs,
            ) by {
                if i < before.len() {
                    assert(out@[i] == before[i]);
                    assert(longer[i] == all.subrange(0, done)[i]);
                }
            }
            done = done + 1;
            assert(rest@ =~= all.subrange(done, all.len() as int));
        }
    }
    assert(all.subrange(0, done) =~= all);
    out
}

/// The references by name; of two under one name the later counts.
pub open spec fn reference_map(list: Seq<NamedReference>) -> Map<Seq<char>, Reference>
    decreases list.len(),
{
    if list.len() == 0 {
        Map::empty()
    } else {
        reference_map(list.drop_last()).insert(list.last().name@, list.last().reference)
    }
}

pub fn remove_reference(list: Vec<NamedReference>, name: &str) -> (r: Vec<NamedReference>)
    ensures
        reference_map(r@) == reference_map(list@).remove(name@),
{
    let ghost all = list@;
    let mut rest: Vec<NamedReference> = list;
    let mut out: Vec<NamedReference> = Vec::new();
    let ghost mut done: int = 0;
    proof {
        assert(all.subrange(0, all.len() as int) =~= all);
        assert(reference_map(all.subrange(0, 0)).remove(name@) =~= reference_map(out@));
    }
    while rest.len() > 0
        invariant
            0 <= done <= all.len(),
            rest@ == all.subrange(done, all.len() as int),
            reference_map(out@) == reference_map(all.subrange(0, done)).remove(name@),
        decreases rest@.len(),
    {
        let item: NamedReference = rest.remove(0);
        let ghost before = out@;
        proof {
            assert(item == all[done]);
            let longer = all.subrange(0, done + 1);
            assert(longer.drop_last() =~= all.subrange(0, done));
            assert(longer.last() == item);
            done = done + 1;
            assert(rest@ =~= all.subrange(done, all.len() as int));
        }
        if !same(item.name.as_str(), name) {
            out.push(item);
            assert(out@.drop_last() =~= before);
        }
        assert(reference_map(out@) =~= reference_map(all.subrange(0, done)).remove(name@));
    }
    assert(all.subrange(0, done) =~= all);
    out
}

pub fn put_reference(list: Vec<NamedReference>, name: &str, reference: Reference) -> (r: Vec<
    NamedReference,
>)
    ensures
        reference_map(r@) == reference_map(list@).insert(name@, reference),
{
    let mut out: Vec<NamedReference> = remove_reference(list, name);
    let ghost before = out@;
    let item = NamedReference { name: name.to_owned(), reference };
    out.push(item);
    proof {
        assert(out@.drop_last() =~= before);
        assert(reference_map(out@) =~= reference_map(list@).insert(name@, reference));
    }
    out
}

/// The references of a record with those of the article among them.
pub open spec fn article_reference_map(
    before: Map<Seq<char>, Reference>,
    refs: ArticleReferences,
) -> Map<Seq<char>, Reference> {
    let two = before.insert("knowledge_base"@, refs.knowledge_base).insert(
        "category"@,
        refs.category,
    );
    match refs.author {
        Some(author) => two.insert("author"@, author),
        None => two.remove("author"@),
    }
}

/// What `article` becomes in normal form.
pub open spec fn is_normal_form(
    r: KnowledgeArticle,
    article: KnowledgeArticle,
    refs: ArticleReferences,
) -> bool {
    &&& r.knowledge_base == refs.knowledge_base
    &&& r.category == refs.category
    &&& r.author == refs.author
    &&& is_relabelled(r.record.fields@, article.record.fields@, refs)
    &&& reference_map(r.record.references@) == article_reference_map(
        reference_map(article.record.references@),
        refs,
    )
    &&& r.record == (SnowRecord {
        fields: r.record.fields,
        references: r.record.references,
        ..article.record
    })
    &&& texts(r.sn_tags@) == layer_tags(texts(article.sn_tags@))
    &&& texts(r.auto_tags@) == layer_tags(texts(article.auto_tags@))
    &&& texts(r.user_tags@) == layer_tags(texts(article.user_tags@))
    &&& r.body_cached == (article.body_cached || !is_blank(article.content@))
    &&& r.article_type == article.article_type
    &&& r.content == article.content
    &&& r.published_at == article.published_at
    &&& r.valid_to == article.valid_to
}

fn copy_references(refs: &ArticleReferences) -> (r: ArticleReferences)
    ensures
        r == *refs,
{
    ArticleReferences {
        knowledge_base: refs.knowledge_base.copy(),
        category: refs.category.copy(),
        author: match &refs.author {
            Some(author) => Some(author.copy()),
            None => None,
        },
    }
}

/// An article in normal form: its references are those given, and stand both in
/// the article and in its record; its tags are trimmed and come once; it counts
/// as cached once it has a body.
pub fn normalize_knowledge_article(article: KnowledgeArticle, refs: &ArticleReferences) -> (r:
    KnowledgeArticle)
    ensures
        is_normal_form(r, article, *refs),
{
    let record: SnowRecord = article.record;
    let fields: Vec<NamedField> = relabel(record.fields, refs);
    let one: Vec<NamedReference> = put_reference(
        record.references,
        "knowledge_base",
        refs.knowledge_base.copy(),
    );
    let two: Vec<NamedReference> = put_reference(one, "category", refs.category.copy());
    let references: Vec<NamedReference> = match &refs.author {
        Some(author) => put_reference(two, "author", author.copy()),
        None => remove_reference(two, "author"),
    };
    let body_cached: bool = article.body_cached || !blank(article.content.as_str());
    let own: ArticleReferences = copy_references(refs);
    KnowledgeArticle {
        record: SnowRecord {
            sys_id: record.sys_id,
            number: record.number,
            table: record.table,
            resource_type: record.resource_type,
            state: record.state,
            short_description: record.short_description,
            description: record.description,
            fields,
            work_notes: record.work_notes,
            comments: record.comments,
            parent: record.parent,
            children: record.children,
            references,
            synced_at: record.synced_at,
            source: record.source,
        },
        knowledge_base: own.knowledge_base,
        category: own.category,
        article_type: article.article_type,
        content: article.content,
        sn_tags: normalize_tag_layer(&article.sn_tags),
        auto_tags: normalize_tag_layer(&article.auto_tags),
        user_tags: normalize_tag_layer(&article.user_tags),
        body_cached,
        published_at: article.published_at,
        author: own.author,
        valid_to: article.valid_to,
    }
}

/// What is known of an article from before.
#[derive(Debug, Clone, PartialEq, Eq)]
pub enum KnownArticle {
    /// The article stands in the vault.
    File { content: String, auto_tags: Vec<String>, user_tags: Vec<String>, body_cached: bool },
    /// The store has a row of it.
    Stored { auto_tags: Vec<String>, user_tags: Vec<String>, body_cached: bool },
    Nothing,
}

/// The body that is kept: the fresh one, unless that is blank and a cached one
/// is there.
pub open spec fn kept_content(fresh: Seq<char>, known: KnownArticle) -> Seq<char> {
    match known {
        KnownArticle::File { content, auto_tags, user_tags, body_cached } => if is_blank(fresh)
            && body_cached && !is_blank(content@) {
            content@
        } else {
            fresh
        },
        _ => fresh,
    }
}

pub open spec fn was_cached(known: KnownArticle) -> bool {
    match known {
        KnownArticle::File { content, auto_tags, user_tags, body_cached } => body_cached,
        KnownArticle::Stored { auto_tags, user_tags, body_cached } => body_cached,
        KnownArticle::Nothing => false,
    }
}

pub open spec fn kept_auto_tags(fresh: Seq<Seq<char>>, known: KnownArticle) -> Seq<Seq<char>> {
    match known {
        KnownArticle::File { content, auto_tags, user_tags, body_cached } => layer_tags(
            texts(auto_tags@),
        ),
        KnownArticle::Stored { auto_tags, user_tags, body_cached } => layer_tags(texts(auto_tags@)),
        KnownArticle::Nothing => layer_tags(fresh),
    }
}

pub open spec fn kept_user_tags(fresh: Seq<Seq<char>>, known: KnownArticle) -> Seq<Seq<char>> {
    match known {
        KnownArticle::File { content, auto_tags, user_tags, body_cached } => layer_tags(
            texts(user_tags@),
        ),
        KnownArticle::Stored { auto_tags, user_tags, body_cached } => layer_tags(texts(user_tags@)),
        KnownArticle::Nothing => layer_tags(fresh),
    }
}

/// The article as it is kept: `fresh` is what the provider gave, `sn_tags` the
/// tags that it holds there. The user's tags, the derived tags and a cached body
/// are taken over from before.
pub fn build_knowledge_article(
    fresh: KnowledgeArticle,
    refs: &ArticleReferences,
    known: KnownArticle,
    sn_tags: Vec<String>,
) -> (r: KnowledgeArticle)
    ensures
        r.content@ == kept_content(fresh.content@, known),
        r.body_cached == (fresh.body_cached || !is_blank(fresh.content@) || was_cached(known)),
        texts(r.sn_tags@) == layer_tags(texts(sn_tags@)),
        texts(r.auto_tags@) == kept_auto_tags(texts(fresh.auto_tags@), known),
        texts(r.user_tags@) == kept_user_tags(texts(fresh.user_tags@), known),
        r.knowledge_base == refs.knowledge_base,
        r.category == refs.category,
        r.author == refs.author,
        is_relabelled(r.record.fields@, fresh.record.fields@, *refs),
        reference_map(r.record.references@) == article_reference_map(
            reference_map(fresh.record.references@),
            *refs,
        ),
        r.record == (SnowRecord {
            fields: r.record.fields,
            references: r.record.references,
            ..fresh.record
        }),
        r.article_type == fresh.article_type,
        r.published_at == fresh.published_at,
        r.valid_to == fresh.valid_to,
{
    let ghost before = known;
    let mut article: KnowledgeArticle = normalize_knowledge_article(fresh, refs);
    let ghost first = article;
    match known {
        KnownArticle::File { content, auto_tags, user_tags, body_cached } => {
            if blank(article.content.as_str()) && body_cached && !blank(content.as_str()) {
                article.content = content;
            }
            article.user_tags = user_tags;
            article.auto_tags = auto_tags;
            article.body_cached = article.body_cached || body_cached;
        },
        KnownArticle::Stored { auto_tags, user_tags, body_cached } => {
            article.user_tags = user_tags;
            article.auto_tags = auto_tags;
            article.body_cached = article.body_cached || body_cached;
        },
        KnownArticle::Nothing => {
            proof {
                crate::tags::tag_layers_are_normal(texts(fresh.auto_tags@));
                crate::tags::tag_layers_are_normal(texts(fresh.user_tags@));
            }
        },
    }
    article.sn_tags = sn_tags;
    let ghost merged = article;
    let r: KnowledgeArticle = normalize_knowledge_article(article, refs);
    proof {
        lemma_relabelled_twice(
            r.record.fields@,
            merged.record.fields@,
            fresh.record.fields@,
            *refs,
        );
        let map = reference_map(fresh.record.references@);
        assert(article_reference_map(article_reference_map(map, *refs), *refs)
            =~= article_reference_map(map, *refs));
    }
    r
}

proof fn lemma_relabelled_twice(
    a: Seq<NamedField>,
    b: Seq<NamedField>,
    c: Seq<NamedField>,
    refs: ArticleReferences,
)
    requires
        is_relabelled(a, b, refs),
        is_relabelled(b, c, refs),
    ensures
        is_relabelled(a, c, refs),
{
    assert forall|i: int| 0 <= i < a.len() implies (#[trigger] a[i]).name == c[i].name
        && a[i].field.value == c[i].field.value && crate::text::text_of(a[i].field.display_value)
        == shown_label(c[i], refs) by {
        assert(b[i].name == c[i].name);
    }
}

/// Reading an article again without its body does not lose a cached body, and
/// reading it with a body replaces it.
pub proof fn cached_bodies_are_kept(fresh: Seq<char>, known: KnownArticle)
    ensures
        is_blank(fresh) && known is File && was_cached(known) && !is_blank(
            known->File_content@,
        ) ==> kept_content(fresh, known) == known->File_content@,
        !is_blank(fresh) ==> kept_content(fresh, known) == fresh,
{
}

// --- filters on the references of an article ---

#[derive(Debug, Clone, PartialEq, Eq)]
pub struct KnowledgeSearchFilters {
    pub knowledge_base: Option<String>,
    pub category: Option<String>,
    pub limit: Option<usize>,
}

/// Whether a reference passes a filter: there is none, it is blank, or it names
/// the reference by its id or, in any case, by its label.
pub open spec fn passes(filter: Option<Seq<char>>, reference: Reference) -> bool {
    match filter {
        None => true,
        Some(f) => {
            let t = trim(f);
            t.len() == 0 || t == reference.sys_id@ || same_ignoring_case(t, reference.display_name@)
        },
    }
}

pub fn matches_semantic_reference_filter(filter: Option<&str>, reference: &Reference) -> (r: bool)
    ensures
        r == passes(crate::text::text_of_ref(filter), *reference),
{
    match filter {
        None => true,
        Some(f) => {
            let t: String = trim_text(f);
            t.as_str().unicode_len() == 0 || same(t.as_str(), reference.sys_id.as_str())
                || same_any_case(t.as_str(), reference.display_name.as_str())
        },
    }
}

/// Whether an article belongs to a listing of one base, of one category, or of
/// one in the other.
pub open spec fn listed_under(
    article: KnowledgeArticle,
    base: Option<Seq<char>>,
    category: Option<Seq<char>>,
) -> bool {
    &&& base is Some ==> article.knowledge_base.sys_id@ == base->0
    &&& category is Some ==> article.category.sys_id@ == category->0
}

pub open spec fn listing_of(base: Option<Seq<char>>, category: Option<Seq<char>>) -> spec_fn(
    KnowledgeArticle,
) -> bool {
    |article: KnowledgeArticle| listed_under(article, base, category)
}

/// The first items of a list, at most `limit` and, where there is one, at
/// least one.
pub open spec fn first_few<T>(items: Seq<T>, limit: Option<usize>) -> Seq<T> {
    match limit {
        None => items,
        Some(n) => {
            let most: int = if n < 1 {
                1
            } else {
                n as int
            };
            if items.len() <= most {
                items
            } else {
                items.subrange(0, most)
            }
        },
    }
}

/// Articles rank by their numbers.
impl Ranked for KnowledgeArticle {
    open spec fn before(self, other: KnowledgeArticle) -> bool {
        text_less(self.record.number@, other.record.number@)
    }

    proof fn rank_laws(a: KnowledgeArticle, b: KnowledgeArticle, c: KnowledgeArticle) {
        lemma_text_order(a.record.number@, b.record.number@, c.record.number@);
    }

    fn precedes(&self, other: &KnowledgeArticle) -> (r: bool) {
        less_text(self.record.number.as_str(), other.record.number.as_str())
    }
}

/// The articles of a listing: those under the base and the category, in the order
/// of their numbers, up to the limit.
pub fn list_knowledge_articles(
    articles: Vec<KnowledgeArticle>,
    knowledge_base_sys_id: Option<&str>,
    category_sys_id: Option<&str>,
    limit: Option<usize>,
) -> (r: Vec<KnowledgeArticle>)
    ensures
        r@ == first_few(
            sorted(articles@).filter(
                listing_of(
                    crate::text::text_of_ref(knowledge_base_sys_id),
                    crate::text::text_of_ref(category_sys_id),
                ),
            ),
            limit,
        ),
{
    let ghost all = sorted(articles@);
    let ghost keep = listing_of(
        crate::text::text_of_ref(knowledge_base_sys_id),
        crate::text::text_of_ref(category_sys_id),
    );
    let mut rest: Vec<KnowledgeArticle> = sort(articles);
    let mut out: Vec<KnowledgeArticle> = Vec::new();
    let ghost mut done: int = 0;
    proof {
        crate::listing::lemma_filter_ends(all, keep);
        assert(all.subrange(0, all.len() as int) =~= all);
    }
    while rest.len() > 0
        invariant
            0 <= done <= all.len(),
            keep == listing_of(
                crate::text::text_of_ref(knowledge_base_sys_id),
                crate::text::text_of_ref(category_sys_id),
            ),
            rest@ == all.subrange(done, all.len() as int),
            out@ == all.subrange(0, done).filter(keep),
        decreases rest@.len(),
    {
        let article: KnowledgeArticle = rest.remove(0);
        proof {
            assert(article == all[done]);
            crate::listing::lemma_filter_step(all, keep, done);
            done = done + 1;
            assert(rest@ =~= all.subrange(done, all.len() as int));
        }
        let under_base: bool = match knowledge_base_sys_id {
            Some(expected) => same(article.knowledge_base.sys_id.as_str(), expected),
            None => true,
        };
        let under_category: bool = match category_sys_id {
            Some(expected) => same(article.category.sys_id.as_str(), expected),
            None => true,
        };
        if under_base && under_category {
            out.push(article);
        }
    }
    assert(all.subrange(0, done) =~= all);
    if let Some(n) = limit {
        let most: usize = if n < 1 {
            1
        } else {
            n
        };
        if out.len() > most {
            let ghost full = out@;
            out.truncate(most);
            assert(out@ =~= full.subrange(0, most as int));
        }
    }
    out
}

} // verus!
