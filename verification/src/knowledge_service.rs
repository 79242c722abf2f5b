//! Listings of the knowledge articles, and when they are read from where.
use vstd::prelude::*;
use vstd::string::*;

use crate::article::{blank, is_blank, KnowledgeArticle};
use crate::knowledge_index::KnowledgeTagSummary;
use crate::knowledge_sync::{joined_by, KbSyncState, Moment};
use crate::listing::{ascending, insert_ascending, lemma_filter_ends, lemma_filter_step};
use crate::tags::KnowledgeTagLayer;
use crate::text::{list_has, same, texts};

verus! {

#[derive(Debug, Clone, PartialEq, Eq)]
pub struct KnowledgeBaseSummary {
    pub sys_id: String,
    pub display_name: String,
    pub article_count: usize,
}

#[derive(Debug, Clone, PartialEq, Eq)]
pub struct KnowledgeCategorySummary {
    pub sys_id: String,
    pub knowledge_base_sys_id: String,
    pub display_name: String,
    pub article_count: usize,
}

/// A knowledge base of the store.
#[derive(Debug, Clone, PartialEq, Eq)]
pub struct KnowledgeBaseRow {
    pub knowledge_base_sys_id: String,
    pub knowledge_base_name: String,
    pub article_count: usize,
}

/// A category of the store.
#[derive(Debug, Clone, PartialEq, Eq)]
pub struct KnowledgeCategoryRow {
    pub category_sys_id: String,
    pub knowledge_base_sys_id: String,
    pub category_name: String,
    pub article_count: usize,
}

/// A tag of the store, and how many articles have it.
#[derive(Debug, Clone, PartialEq, Eq)]
pub struct TagRow {
    pub tag: String,
    pub article_count: usize,
}

/// What the store knows of the knowledge articles: the knowledge bases, their
/// categories, and the tags, of each layer and of all together.
pub struct KnowledgeService {
    pub bases: Vec<KnowledgeBaseRow>,
    pub categories: Vec<KnowledgeCategoryRow>,
    pub sn_tags: Vec<TagRow>,
    pub auto_tags: Vec<TagRow>,
    pub user_tags: Vec<TagRow>,
    pub all_tags: Vec<TagRow>,
}

pub open spec fn base_summary(row: KnowledgeBaseRow) -> KnowledgeBaseSummary {
    KnowledgeBaseSummary {
        sys_id: row.knowledge_base_sys_id,
        display_name: row.knowledge_base_name,
        article_count: row.article_count,
    }
}

pub open spec fn category_summary(row: KnowledgeCategoryRow) -> KnowledgeCategorySummary {
    KnowledgeCategorySummary {
        sys_id: row.category_sys_id,
        knowledge_base_sys_id: row.knowledge_base_sys_id,
        display_name: row.category_name,
        article_count: row.article_count,
    }
}

pub open spec fn in_base(id: Seq<char>) -> spec_fn(KnowledgeCategoryRow) -> bool {
    |row: KnowledgeCategoryRow| row.knowledge_base_sys_id@ == id
}

pub open spec fn used_by_at_least(n: usize) -> spec_fn(TagRow) -> bool {
    |row: TagRow| row.article_count >= n
}

pub open spec fn has_tag(rows: Seq<TagRow>, tag: Seq<char>) -> bool {
    exists|i: int| 0 <= i < rows.len() && (#[trigger] rows[i]).tag@ == tag
}

/// Whether some article has the tag.
pub open spec fn uses_tag(rows: Seq<TagRow>, tag: Seq<char>) -> bool {
    exists|i: int|
        0 <= i < rows.len() && (#[trigger] rows[i]).tag@ == tag && used_by_at_least(1)(rows[i])
}

fn tag_used(rows: &Vec<TagRow>, tag: &str) -> (r: bool)
    ensures
        r == uses_tag(rows@, tag@),
{
    let mut i: usize = 0;
    while i < rows.len()
        invariant
            i <= rows@.len(),
            forall|k: int|
                0 <= k < i ==> (#[trigger] rows@[k]).tag@ != tag@ || rows@[k].article_count == 0,
        decreases rows@.len() - i,
    {
        if rows[i].article_count >= 1 && same(rows[i].tag.as_str(), tag) {
            assert(used_by_at_least(1)(rows@[i as int]));
            return true;
        }
        i += 1;
    }
    false
}

impl KnowledgeService {
    /// The knowledge bases.
    pub fn list_knowledge_bases(&self) -> (r: Vec<KnowledgeBaseSummary>)
        ensures
            r@ == self.bases@.map_values(|row: KnowledgeBaseRow| base_summary(row)),
    {
        let mut out: Vec<KnowledgeBaseSummary> = Vec::new();
        let mut i: usize = 0;
        while i < self.bases.len()
            invariant
                i <= self.bases@.len(),
                out@ =~= self.bases@.subrange(0, i as int).map_values(
                    |row: KnowledgeBaseRow| base_summary(row),
                ),
            decreases self.bases@.len() - i,
        {
            let row: &KnowledgeBaseRow = &self.bases[i];
            out.push(
                KnowledgeBaseSummary {
                    sys_id: row.knowledge_base_sys_id.clone(),
                    display_name: row.knowledge_base_name.clone(),
                    article_count: row.article_count,
                },
            );
            i += 1;
        }
        assert(self.bases@.subrange(0, i as int) =~= self.bases@);
        out
    }

    /// The categories of a knowledge base.
    pub fn list_categories(&self, knowledge_base_sys_id: &str) -> (r: Vec<KnowledgeCategorySummary>)
        ensures
            r@ == self.categories@.filter(in_base(knowledge_base_sys_id@)).map_values(
                |row: KnowledgeCategoryRow| category_summary(row),
            ),
    {
        let ghost all = self.categories@;
        let ghost keep = in_base(knowledge_base_sys_id@);
        let mut out: Vec<KnowledgeCategorySummary> = Vec::new();
        let mut i: usize = 0;
        proof {
            lemma_filter_ends(all, keep);
            assert(out@ =~= all.subrange(0, 0).filter(keep).map_values(
                |row: KnowledgeCategoryRow| category_summary(row),
            ));
        }
        while i < self.categories.len()
            invariant
                i <= self.categories@.len(),
                all == self.categories@,
                keep == in_base(knowledge_base_sys_id@),
                out@ == all.subrange(0, i as int).filter(keep).map_values(
                    |row: KnowledgeCategoryRow| category_summary(row),
                ),
            decreases self.categories@.len() - i,
        {
            let row: &KnowledgeCategoryRow = &self.categories[i];
            let ghost before = out@;
            let ghost kept = all.subrange(0, i as int).filter(keep);
            proof {
                lemma_filter_step(all, keep, i as int);
            }
            if same(row.knowledge_base_sys_id.as_str(), knowledge_base_sys_id) {
                let item = KnowledgeCategorySummary {
                    sys_id: row.category_sys_id.clone(),
                    knowledge_base_sys_id: row.knowledge_base_sys_id.clone(),
                    display_name: row.category_name.clone(),
                    article_count: row.article_count,
                };
                out.push(item);
                assert(kept.push(*row).map_values(
                    |row: KnowledgeCategoryRow| category_summary(row),
                ) =~= before.push(item));
            }
            i += 1;
        }
        assert(all.subrange(0, i as int) =~= all);
        out
    }

    /// The tags of a layer as the store has them.
    pub open spec fn layer(self, layer: KnowledgeTagLayer) -> Seq<TagRow> {
        match layer {
            KnowledgeTagLayer::Sn => self.sn_tags@,
            KnowledgeTagLayer::Auto => self.auto_tags@,
            KnowledgeTagLayer::User => self.user_tags@,
        }
    }

    /// The layers in which some article has a tag, in order.
    pub open spec fn layers_with(self, tag: Seq<char>) -> Seq<KnowledgeTagLayer> {
        let sn = if uses_tag(self.sn_tags@, tag) {
            seq![KnowledgeTagLayer::Sn]
        } else {
            Seq::empty()
        };
        let auto = if uses_tag(self.auto_tags@, tag) {
            seq![KnowledgeTagLayer::Auto]
        } else {
            Seq::empty()
        };
        let user = if uses_tag(self.user_tags@, tag) {
            seq![KnowledgeTagLayer::User]
        } else {
            Seq::empty()
        };
        sn + auto + user
    }

    /// What is reported of the tags of all layers together: with each the layers
    /// that have it, at its first mention.
    pub open spec fn is_tag_report(self, report: Seq<KnowledgeTagSummary>, rows: Seq<TagRow>) -> bool {
        &&& report.len() == rows.len()
        &&& forall|i: int|
            0 <= i < rows.len() ==> (#[trigger] report[i]).tag == rows[i].tag && report[i].count
                == rows[i].article_count && report[i].layers@ == (if has_tag(
                rows.subrange(0, i),
                rows[i].tag@,
            ) {
                Seq::empty()
            } else {
                self.layers_with(rows[i].tag@)
            })
    }

    fn find_layers(&self, tag: &str) -> (r: Vec<KnowledgeTagLayer>)
        ensures
            r@ == self.layers_with(tag@),
    {
        let mut out: Vec<KnowledgeTagLayer> = Vec::new();
        if tag_used(&self.sn_tags, tag) {
            out.push(KnowledgeTagLayer::Sn);
        }
        if tag_used(&self.auto_tags, tag) {
            out.push(KnowledgeTagLayer::Auto);
        }
        if tag_used(&self.user_tags, tag) {
            out.push(KnowledgeTagLayer::User);
        }
        assert(out@ =~= self.layers_with(tag@));
        out
    }

    /// The tags that at least `min_count` articles have, of one layer or of all.
    pub fn list_knowledge_tags(&self, layer: Option<KnowledgeTagLayer>, min_count: usize) -> (r:
        Result<Vec<KnowledgeTagSummary>, String>)
        ensures
            match r {
                Err(e) => min_count == 0 && e@ == "min_count must be at least 1"@,
                Ok(report) => min_count > 0 && match layer {
                    Some(l) => {
                        let rows = self.layer(l).filter(used_by_at_least(min_count));
                        &&& report@.len() == rows.len()
                        &&& forall|i: int|
                            0 <= i < rows.len() ==> (#[trigger] report@[i]).tag == rows[i].tag
                                && report@[i].count == rows[i].article_count && report@[i].layers@
                                == seq![l]
                    },
                    None => self.is_tag_report(
                        report@,
                        self.all_tags@.filter(used_by_at_least(min_count)),
                    ),
                },
            },
    {
        if min_count == 0 {
            return Err("min_count must be at least 1".to_owned());
        }
        match layer {
            Some(l) => {
                let rows: Vec<TagRow> = match l {
                    KnowledgeTagLayer::Sn => keep_used(&self.sn_tags, min_count),
                    KnowledgeTagLayer::Auto => keep_used(&self.auto_tags, min_count),
                    KnowledgeTagLayer::User => keep_used(&self.user_tags, min_count),
                };
                let mut out: Vec<KnowledgeTagSummary> = Vec::new();
                let mut i: usize = 0;
                while i < rows.len()
                    invariant
                        i <= rows@.len(),
                        out@.len() == i,
                        forall|k: int|
                            0 <= k < i ==> (#[trigger] out@[k]).tag == rows@[k].tag
                                && out@[k].count == rows@[k].article_count && out@[k].layers@
                                == seq![l],
                    decreases rows@.len() - i,
                {
                    let mut layers: Vec<KnowledgeTagLayer> = Vec::new();
                    layers.push(l);
                    out.push(
                        KnowledgeTagSummary {
                            tag: rows[i].tag.clone(),
                            count: rows[i].article_count,
                            layers,
                        },
                    );
                    i += 1;
                }
                Ok(out)
            },
            None => {
                let rows: Vec<TagRow> = keep_used(&self.all_tags, min_count);
                let mut out: Vec<KnowledgeTagSummary> = Vec::new();
                let mut named: Vec<String> = Vec::new();
                let mut i: usize = 0;
                proof {
                    crate::text::lemma_texts_empty();
                }
                while i < rows.len()
                    invariant
                        i <= rows@.len(),
                        self.is_tag_report(out@, rows@.subrange(0, i as int)),
                        forall|t: Seq<char>| #[trigger]
                            texts(named@).contains(t) <==> has_tag(
                                rows@.subrange(0, i as int),
                                t,
                            ),
                    decreases rows@.len() - i,
                {
                    let layers: Vec<KnowledgeTagLayer> = if list_has(&named, rows[i].tag.as_str()) {
                        Vec::new()
                    } else {
                        self.find_layers(rows[i].tag.as_str())
                    };
                    let ghost before = out@;
                    let ghost listed = texts(named@);
                    let ghost shorter = rows@.subrange(0, i as int);
                    let ghost longer = rows@.subrange(0, i + 1);
                    let tag: String = rows[i].tag.clone();
                    proof {
                        crate::text::lemma_texts_push(named@, tag);
                    }
                    named.push(tag);
                    let item = KnowledgeTagSummary {
                        tag: rows[i].tag.clone(),
                        count: rows[i].article_count,
                        layers,
                    };
                    out.push(item);
                    proof {
                        assert forall|k: int| 0 <= k < longer.len() implies (#[trigger] out@[k]).tag
                            == longer[k].tag && out@[k].count == longer[k].article_count
                            && out@[k].layers@ == (if has_tag(
                            longer.subrange(0, k),
                            longer[k].tag@,
                        ) {
                            Seq::empty()
                        } else {
                            self.layers_with(longer[k].tag@)
                        }) by {
                            assert(longer.subrange(0, k) =~= shorter.subrange(0, k));
                            if k < i {
                                assert(out@[k] == before[k]);
                                assert(longer[k] == shorter[k]);
                            } else {
                                assert(shorter.subrange(0, k) =~= shorter);
                            }
                        }
                        assert forall|t: Seq<char>| #[trigger]
                            texts(named@).contains(t) <==> has_tag(longer, t) by {
                            let now = texts(named@);
                            if listed.contains(t) {
                                let k = choose|k: int| 0 <= k < listed.len() && listed[k] == t;
                                assert(now[k] == t);
                                let m = choose|m: int|
                                    0 <= m < shorter.len() && (#[trigger] shorter[m]).tag@ == t;
                                assert(longer[m] == shorter[m]);
                            }
                            if t == tag@ {
                                assert(now[listed.len() as int] == t);
                                assert(longer[i as int].tag@ == t);
                            }
                            if now.contains(t) {
                                let k = choose|k: int| 0 <= k < now.len() && now[k] == t;
                                if k < listed.len() {
                                    assert(listed[k] == t);
                                }
                            }
                            if has_tag(longer, t) {
                                let m = choose|m: int|
                                    0 <= m < longer.len() && (#[trigger] longer[m]).tag@ == t;
                                if m < i {
                                    assert(shorter[m].tag@ == t);
                                }
                            }
                        }
                    }
                    i += 1;
                }
                assert(rows@.subrange(0, i as int) =~= rows@);
                Ok(out)
            },
        }
    }

    /// How many categories the knowledge bases have together.
    pub open spec fn category_total(self, bases: Seq<KnowledgeBaseRow>) -> nat
        decreases bases.len(),
    {
        if bases.len() == 0 {
            0
        } else {
            self.category_total(bases.drop_last()) + self.categories@.filter(
                in_base(bases.last().knowledge_base_sys_id@),
            ).len()
        }
    }

    /// How the knowledge articles stand.
    pub fn knowledge_status(
        &self,
        article_count: usize,
        body_cached_count: usize,
        state: KbSyncState,
    ) -> (r: KnowledgeStatus)
        requires
            self.category_total(self.bases@) <= usize::MAX,
        ensures
            r.article_count == article_count,
            r.body_cached_count == body_cached_count,
            r.knowledge_base_count == self.bases@.len(),
            r.category_count == self.category_total(self.bases@),
            r.last_full_at == state.last_full_at,
            r.last_incremental_at == state.last_incr_at,
            r.watermark_updated_at == state.watermark_updated_at,
            r.watermark_sys_id == state.watermark_sys_id,
            r.lock_held == state.kb_sync_lock is Some,
            r.lock_timestamp_ms == state.kb_sync_lock,
    {
        let mut category_count: usize = 0;
        let mut i: usize = 0;
        assert(self.bases@.subrange(0, 0) =~= Seq::<KnowledgeBaseRow>::empty());
        while i < self.bases.len()
            invariant
                i <= self.bases@.len(),
                self.category_total(self.bases@) <= usize::MAX,
                category_count == self.category_total(self.bases@.subrange(0, i as int)),
            decreases self.bases@.len() - i,
        {
            let listed: Vec<KnowledgeCategorySummary> = self.list_categories(
                self.bases[i].knowledge_base_sys_id.as_str(),
            );
            proof {
                let longer = self.bases@.subrange(0, i + 1);
                assert(longer.drop_last() =~= self.bases@.subrange(0, i as int));
                assert(longer.last() == self.bases@[i as int]);
                self.lemma_total_grows(self.bases@, i + 1);
            }
            category_count += listed.len();
            i += 1;
        }
        assert(self.bases@.subrange(0, i as int) =~= self.bases@);
        KnowledgeStatus {
            article_count,
            body_cached_count,
            knowledge_base_count: self.bases.len(),
            category_count,
            last_full_at: state.last_full_at,
            last_incremental_at: state.last_incr_at,
            watermark_updated_at: state.watermark_updated_at,
            watermark_sys_id: state.watermark_sys_id,
            lock_held: state.kb_sync_lock.is_some(),
            lock_timestamp_ms: state.kb_sync_lock,
        }
    }

    proof fn lemma_total_grows(self, bases: Seq<KnowledgeBaseRow>, k: int)
        requires
            0 <= k <= bases.len(),
        ensures
            self.category_total(bases.subrange(0, k)) <= self.category_total(bases),
        decreases bases.len(),
    {
        if k == bases.len() {
            assert(bases.subrange(0, k) =~= bases);
        } else {
            self.lemma_total_grows(bases.drop_last(), k);
            assert(bases.drop_last().subrange(0, k) =~= bases.subrange(0, k));
        }
    }
}

fn keep_used(rows: &Vec<TagRow>, min_count: usize) -> (r: Vec<TagRow>)
    ensures
        r@ == rows@.filter(used_by_at_least(min_count)),
{
    let ghost all = rows@;
    let ghost keep = used_by_at_least(min_count);
    let mut out: Vec<TagRow> = Vec::new();
    let mut i: usize = 0;
    proof {
        lemma_filter_ends(all, keep);
    }
    while i < rows.len()
        invariant
            i <= rows@.len(),
            all == rows@,
            keep == used_by_at_least(min_count),
            out@ == all.subrange(0, i as int).filter(keep),
        decreases rows@.len() - i,
    {
        proof {
            lemma_filter_step(all, keep, i as int);
        }
        if rows[i].article_count >= min_count {
            out.push(
                TagRow { tag: rows[i].tag.clone(), article_count: rows[i].article_count },
            );
        }
        i += 1;
    }
    assert(all.subrange(0, i as int) =~= all);
    out
}

#[derive(Debug, Clone, PartialEq, Eq)]
pub struct KnowledgeStatus {
    pub article_count: usize,
    pub body_cached_count: usize,
    pub knowledge_base_count: usize,
    pub category_count: usize,
    pub last_full_at: Option<Moment>,
    pub last_incremental_at: Option<Moment>,
    pub watermark_updated_at: Option<String>,
    pub watermark_sys_id: Option<String>,
    pub lock_held: bool,
    pub lock_timestamp_ms: Option<i64>,
}

// --- where an article is read from ---

/// Where a reading may come from.
#[derive(Debug, Clone, Copy, PartialEq, Eq, Structural)]
pub enum CacheMode {
    /// From the provider.
    Live,
    /// From the cache while it is fresh, else from the provider.
    ReadThrough,
    /// From the cache.
    CacheOnly,
}

/// How an article is read.
#[derive(Debug, Clone, Copy, PartialEq, Eq, Structural)]
pub enum ArticleRead {
    /// What the cache has is given out.
    Cached,
    /// The cache has nothing usable, and nothing else may be asked.
    Missed,
    /// The provider is asked; `persist` says whether what it gives is kept.
    Live { persist: bool },
}

/// Whether a time to live has not run out yet.
pub open spec fn still_fresh(synced_at: Moment, ttl_seconds: i64, now: Moment) -> bool {
    synced_at.value() + ttl_seconds * 1_000_000_000 > now.value()
}

/// Whether what the cache has can be given out.
pub open spec fn cache_usable(
    mode: CacheMode,
    ttl_seconds: Option<i64>,
    cached: Option<(bool, Moment)>,
    now: Moment,
) -> bool {
    match cached {
        Some((body_cached, synced_at)) => body_cached && (mode == CacheMode::CacheOnly || (
        ttl_seconds is Some && still_fresh(synced_at, ttl_seconds->0, now))),
        None => false,
    }
}

/// Plans how an article is read. `cached` says of what the cache has whether the
/// body is there, and when it was read.
pub fn plan_article_read(
    mode: CacheMode,
    ttl_seconds: Option<i64>,
    cached: Option<(bool, Moment)>,
    now: Moment,
) -> (r: ArticleRead)
    ensures
        r == (if mode == CacheMode::Live {
            ArticleRead::Live { persist: false }
        } else if cache_usable(mode, ttl_seconds, cached, now) {
            ArticleRead::Cached
        } else if mode == CacheMode::CacheOnly {
            ArticleRead::Missed
        } else {
            ArticleRead::Live { persist: true }
        }),
{
    let cache_only: bool = match mode {
        CacheMode::Live => {
            return ArticleRead::Live { persist: false };
        },
        CacheMode::ReadThrough => false,
        CacheMode::CacheOnly => true,
    };
    let usable: bool = match cached {
        Some((body_cached, synced_at)) => body_cached && (cache_only || match ttl_seconds {
            Some(ttl) => {
                let until: i128 = (synced_at.seconds as i128) * 1_000_000_000
                    + synced_at.nanos as i128 + (ttl as i128) * 1_000_000_000;
                let at: i128 = (now.seconds as i128) * 1_000_000_000 + now.nanos as i128;
                until > at
            },
            None => false,
        }),
        None => false,
    };
    if usable {
        ArticleRead::Cached
    } else if cache_only {
        ArticleRead::Missed
    } else {
        ArticleRead::Live { persist: true }
    }
}

/// An article whose body is not in the cache is never given out from it.
pub proof fn bodiless_articles_are_not_given_out(
    mode: CacheMode,
    ttl_seconds: Option<i64>,
    cached: Option<(bool, Moment)>,
    now: Moment,
)
    requires
        cached is Some ==> !(cached->0).0,
    ensures
        !cache_usable(mode, ttl_seconds, cached, now),
{
}

/// Whether a fresh article calls for a rebuild of the semantic index: it is
/// wanted, and the article has a body.
pub fn calls_for_rebuild(wanted: bool, article: Option<&KnowledgeArticle>) -> (r: bool)
    ensures
        r == (wanted && article is Some && article->0.body_cached && !is_blank(
            article->0.content@,
        )),
{
    match article {
        Some(a) => wanted && a.body_cached && !blank(a.content.as_str()),
        None => false,
    }
}

/// The article that is taken for a row of the store: the one in the vault, else
/// the one that the store gives for the number, if it is that of the row.
pub fn pick_loaded(
    sys_id: &str,
    from_vault: Option<KnowledgeArticle>,
    from_store: Option<KnowledgeArticle>,
) -> (r: Option<KnowledgeArticle>)
    ensures
        r == (match from_vault {
            Some(a) => Some(a),
            None => match from_store {
                Some(a) => if a.record.sys_id@ == sys_id@ {
                    Some(a)
                } else {
                    None::<KnowledgeArticle>
                },
                None => None,
            },
        }),
{
    match from_vault {
        Some(a) => Some(a),
        None => match from_store {
            Some(a) => if same(a.record.sys_id.as_str(), sys_id) {
                Some(a)
            } else {
                None
            },
            None => None,
        },
    }
}

// --- articles that were changed in the vault ---

/// Whether an article of the vault is read again: its file is there, and was
/// written at another time than the store has noted.
pub fn needs_ingest(noted_ms: Option<i64>, found_ms: Option<i64>) -> (r: bool)
    ensures
        r == (found_ms is Some && noted_ms != found_ms),
{
    match found_ms {
        Some(found) => match noted_ms {
            Some(noted) => noted != found,
            None => true,
        },
        None => false,
    }
}

/// The articles that were changed in the vault, and their knowledge bases. The
/// lists are ascending.
pub struct LocalKnowledgeIngest {
    pub changed_record_sys_ids: Vec<String>,
    pub changed_base_sys_ids: Vec<String>,
}

impl LocalKnowledgeIngest {
    pub open spec fn wf(self) -> bool {
        ascending(texts(self.changed_record_sys_ids@)) && ascending(
            texts(self.changed_base_sys_ids@),
        )
    }

    pub fn new() -> (r: LocalKnowledgeIngest)
        ensures
            r.wf(),
            r.changed_record_sys_ids@.len() == 0,
            r.changed_base_sys_ids@.len() == 0,
    {
        LocalKnowledgeIngest { changed_record_sys_ids: Vec::new(), changed_base_sys_ids: Vec::new() }
    }

    /// Takes note of an article that was read again.
    pub fn note(&mut self, article: &KnowledgeArticle)
        requires
            old(self).wf(),
        ensures
            final(self).wf(),
            joined_by(
                texts(final(self).changed_record_sys_ids@),
                texts(old(self).changed_record_sys_ids@),
                article.record.sys_id@,
            ),
            if article.knowledge_base.sys_id@.len() > 0 {
                joined_by(
                    texts(final(self).changed_base_sys_ids@),
                    texts(old(self).changed_base_sys_ids@),
                    article.knowledge_base.sys_id@,
                )
            } else {
                final(self).changed_base_sys_ids == old(self).changed_base_sys_ids
            },
    {
        insert_ascending(&mut self.changed_record_sys_ids, article.record.sys_id.as_str());
        if article.knowledge_base.sys_id.as_str().unicode_len() > 0 {
            insert_ascending(&mut self.changed_base_sys_ids, article.knowledge_base.sys_id.as_str());
        }
    }
}

/// The ids of both lists, in order, each once.
pub fn union_of(a: &Vec<String>, b: &Vec<String>) -> (r: Vec<String>)
    ensures
        ascending(texts(r@)),
        forall|t: Seq<char>| #[trigger]
            texts(r@).contains(t) <==> texts(a@).contains(t) || texts(b@).contains(t),
{
    let mut out: Vec<String> = Vec::new();
    proof {
        crate::text::lemma_texts_empty();
    }
    add_all(&mut out, a);
    add_all(&mut out, b);
    out
}

fn add_all(out: &mut Vec<String>, list: &Vec<String>)
    requires
        ascending(texts(old(out)@)),
    ensures
        ascending(texts(final(out)@)),
        forall|t: Seq<char>| #[trigger]
            texts(final(out)@).contains(t) <==> texts(old(out)@).contains(t) || texts(
                list@,
            ).contains(t),
{
    let ghost start = texts(out@);
    let ghost all = texts(list@);
    let mut i: usize = 0;
    while i < list.len()
        invariant
            i <= list@.len(),
            all == texts(list@),
            ascending(texts(out@)),
            forall|t: Seq<char>| #[trigger]
                texts(out@).contains(t) <==> start.contains(t) || all.subrange(
                    0,
                    i as int,
                ).contains(t),
        decreases list@.len() - i,
    {
        insert_ascending(out, list[i].as_str());
        proof {
            let shorter = all.subrange(0, i as int);
            let longer = all.subrange(0, i + 1);
            assert forall|t: Seq<char>| #[trigger] longer.contains(t) == (shorter.contains(t) || t
                == all[i as int]) by {
                if shorter.contains(t) {
                    let k = choose|k: int| 0 <= k < shorter.len() && shorter[k] == t;
                    assert(longer[k] == t);
                }
                if t == all[i as int] {
                    assert(longer[i as int] == t);
                }
                if longer.contains(t) {
                    let k = choose|k: int| 0 <= k < longer.len() && longer[k] == t;
                    if k < i {
                        assert(shorter[k] == t);
                    }
                }
            }
        }
        i += 1;
    }
    assert(all.subrange(0, i as int) =~= all);
}

/// A row of the store that stands for an article.
#[derive(Debug, Clone, PartialEq, Eq)]
pub struct ArticleRow {
    pub sys_id: String,
    pub number: String,
}

/// The rows without those whose article came before.
pub open spec fn first_rows(rows: Seq<ArticleRow>) -> Seq<ArticleRow>
    decreases rows.len(),
{
    if rows.len() == 0 {
        Seq::empty()
    } else {
        let front = first_rows(rows.drop_last());
        if row_listed(rows.drop_last(), rows.last().sys_id@) {
            front
        } else {
            front.push(rows.last())
        }
    }
}

pub open spec fn row_listed(rows: Seq<ArticleRow>, id: Seq<char>) -> bool {
    exists|i: int| 0 <= i < rows.len() && (#[trigger] rows[i]).sys_id@ == id
}

/// Drops the rows whose article came before.
pub fn distinct_rows(rows: Vec<ArticleRow>) -> (r: Vec<ArticleRow>)
    ensures
        r@ == first_rows(rows@),
{
    let ghost all = rows@;
    let mut rest: Vec<ArticleRow> = rows;
    let mut seen: Vec<String> = Vec::new();
    let mut out: Vec<ArticleRow> = Vec::new();
    let ghost mut done: int = 0;
    proof {
        crate::text::lemma_texts_empty();
        assert(all.subrange(0, all.len() as int) =~= all);
    }
    while rest.len() > 0
        invariant
            0 <= done <= all.len(),
            rest@ == all.subrange(done, all.len() as int),
            ascending(texts(seen@)),
            forall|t: Seq<char>| #[trigger]
                texts(seen@).contains(t) <==> row_listed(all.subrange(0, done), t),
            out@ == first_rows(all.subrange(0, done)),
        decreases rest@.len(),
    {
        let row: ArticleRow = rest.remove(0);
        let ghost shorter = all.subrange(0, done);
        let ghost longer = all.subrange(0, done + 1);
        let known: bool = list_has(&seen, row.sys_id.as_str());
        insert_ascending(&mut seen, row.sys_id.as_str());
        proof {
            assert(row == all[done]);
            assert(longer.drop_last() =~= shorter);
            assert(longer.last() == row);
            assert forall|t: Seq<char>| #[trigger]
                row_listed(longer, t) <==> row_listed(shorter, t) || t == row.sys_id@ by {
                if row_listed(shorter, t) {
                    let k = choose|k: int|
                        0 <= k < shorter.len() && (#[trigger] shorter[k]).sys_id@ == t;
                    assert(longer[k].sys_id@ == t);
                }
                if t == row.sys_id@ {
                    assert(longer[done].sys_id@ == t);
                }
                if row_listed(longer, t) {
                    let k = choose|k: int|
                        0 <= k < longer.len() && (#[trigger] longer[k]).sys_id@ == t;
                    if k < done {
                        assert(shorter[k].sys_id@ == t);
                    }
                }
            }
            done = done + 1;
            assert(rest@ =~= all.subrange(done, all.len() as int));
        }
        if !known {
            out.push(row);
        }
    }
    assert(all.subrange(0, done) =~= all);
    out
}

} // verus!
