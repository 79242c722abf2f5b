//! Keeping the local knowledge articles in step with the provider.
use vstd::prelude::*;
use vstd::string::*;

use crate::article::{blank, is_blank};
use crate::listing::{
    ascending, insert_ascending, lemma_pass_done, lemma_pass_step, lemma_pass_stopped, pass,
};
use crate::number::{number_of, parse_u64};
use crate::query::{DisplayMode, Operator, Query, QueryView};
use crate::reference::{reference_filter, referring};
use crate::row::{Row, RowView};
use crate::split::{parted, pieces, split_once, split_text, Separator};
use crate::tags::tag_text;
use crate::text::{
    byte_len, byte_length, chars_of, decimal, decimal_text, joined3, lemma_text_order, less_text,
    list_has, names_of, same, slice_string, strings_of, text_less, text_of, text_of_ref, texts,
    trim, trim_text,
};

verus! {

#[derive(Debug, Clone, Copy, PartialEq, Eq, Structural)]
pub enum KnowledgeSyncMode {
    Full,
    Incremental,
}

#[derive(Debug, Clone, PartialEq, Eq)]
pub struct KnowledgeSyncOutcome {
    pub accepted: bool,
    pub mode: KnowledgeSyncMode,
    pub with_bodies: bool,
    pub status: String,
    pub details: Option<String>,
}

// --- when a full pass is due ---

/// The seconds of a number of units of time.
pub open spec fn unit_seconds(n: int, unit: char) -> Option<int> {
    if unit == 's' {
        Some(n)
    } else if unit == 'm' {
        Some(n * 60)
    } else if unit == 'h' {
        Some(n * 3600)
    } else if unit == 'd' {
        Some(n * 86400)
    } else {
        None
    }
}

/// The seconds that a text such as `90s`, `15m`, `3h` or `7d` writes.
pub open spec fn duration_of(input: Seq<char>) -> Option<int> {
    if byte_len(input) < 2 {
        None
    } else {
        match number_of(trim(input.drop_last())) {
            Some(n) => unit_seconds(n as int, input.last()),
            None => None,
        }
    }
}

/// What a text must be for its duration to be read: its last character is one
/// byte long, and the seconds fit 64 bits.
pub open spec fn duration_readable(input: Seq<char>) -> bool {
    &&& byte_len(input) >= 2 ==> input.len() > 0 && (input.last() as u32) < 128
    &&& match duration_of(input) {
        Some(seconds) => seconds <= u64::MAX,
        None => true,
    }
}

/// The seconds of a duration.
pub fn parse_duration(input: &str) -> (r: Option<u64>)
    requires
        duration_readable(input@),
    ensures
        match r {
            Some(seconds) => duration_of(input@) == Some(seconds as int),
            None => duration_of(input@) is None,
        },
{
    if byte_length(input) < 2 {
        return None;
    }
    let v: Vec<char> = chars_of(input);
    let last: usize = v.len() - 1;
    let front: String = slice_string(&v, 0, last);
    assert(front@ =~= input@.drop_last());
    let trimmed: String = trim_text(front.as_str());
    let value: u64 = match parse_u64(trimmed.as_str()) {
        Some(n) => n,
        None => {
            return None;
        },
    };
    let unit: char = v[last];
    if unit == 's' {
        Some(value)
    } else if unit == 'm' {
        Some(value * 60)
    } else if unit == 'h' {
        Some(value * 3600)
    } else if unit == 'd' {
        Some(value * 86400)
    } else {
        None
    }
}

/// Whether the duration of a text can be read.
pub fn is_duration_readable(input: &str) -> (r: bool)
    ensures
        r == duration_readable(input@),
{
    if byte_length(input) < 2 {
        return true;
    }
    let v: Vec<char> = chars_of(input);
    if v.len() == 0 || v[v.len() - 1] as u32 >= 128 {
        return false;
    }
    let last: usize = v.len() - 1;
    let front: String = slice_string(&v, 0, last);
    assert(front@ =~= input@.drop_last());
    let trimmed: String = trim_text(front.as_str());
    let value: u64 = match parse_u64(trimmed.as_str()) {
        Some(n) => n,
        None => {
            return true;
        },
    };
    let unit: char = v[last];
    if unit == 'm' {
        value <= u64::MAX / 60
    } else if unit == 'h' {
        value <= u64::MAX / 3600
    } else if unit == 'd' {
        value <= u64::MAX / 86400
    } else {
        true
    }
}

/// A point in time: seconds since 1970, and nanoseconds.
#[derive(Debug, Clone, Copy, PartialEq, Eq, Structural)]
pub struct Moment {
    pub seconds: i64,
    pub nanos: u32,
}

impl Moment {
    pub open spec fn value(self) -> int {
        self.seconds * 1_000_000_000 + self.nanos
    }
}

/// Whether at least `seconds` have passed from `since` to `now`. Where the clock
/// has gone back, they have.
pub open spec fn has_passed(since: Moment, now: Moment, seconds: int) -> bool {
    let elapsed = now.value() - since.value();
    elapsed < 0 || elapsed >= seconds * 1_000_000_000
}

pub fn passed(since: Moment, now: Moment, seconds: u64) -> (r: bool)
    ensures
        r == has_passed(since, now, seconds as int),
{
    let from: i128 = (since.seconds as i128) * 1_000_000_000 + since.nanos as i128;
    let to: i128 = (now.seconds as i128) * 1_000_000_000 + now.nanos as i128;
    let elapsed: i128 = to - from;
    elapsed < 0 || elapsed >= (seconds as i128) * 1_000_000_000
}

/// Which pass is due: a full one where it is asked for, where there is no
/// watermark to go on from, or where the last full one lies further back than
/// the interval.
pub open spec fn sync_mode(
    requested_full: bool,
    interval: Option<Seq<char>>,
    last_full_at: Option<Moment>,
    watermark: (Option<Seq<char>>, Option<Seq<char>>),
    now: Moment,
) -> KnowledgeSyncMode {
    if requested_full || watermark.0 is None || watermark.1 is None {
        KnowledgeSyncMode::Full
    } else {
        match interval {
            Some(text) => match duration_of(text) {
                Some(seconds) => match last_full_at {
                    Some(last) => if has_passed(last, now, seconds) {
                        KnowledgeSyncMode::Full
                    } else {
                        KnowledgeSyncMode::Incremental
                    },
                    None => KnowledgeSyncMode::Full,
                },
                None => KnowledgeSyncMode::Incremental,
            },
            None => KnowledgeSyncMode::Incremental,
        }
    }
}

pub fn determine_sync_mode(
    requested_full: bool,
    full_sync_interval: Option<&str>,
    last_full_at: Option<Moment>,
    watermark_updated_at: Option<&str>,
    watermark_sys_id: Option<&str>,
    now: Moment,
) -> (r: KnowledgeSyncMode)
    requires
        !requested_full && watermark_updated_at is Some && watermark_sys_id is Some
            && full_sync_interval is Some ==> duration_readable(full_sync_interval->0@),
    ensures
        r == sync_mode(
            requested_full,
            text_of_ref(full_sync_interval),
            last_full_at,
            (text_of_ref(watermark_updated_at), text_of_ref(watermark_sys_id)),
            now,
        ),
{
    if requested_full || watermark_updated_at.is_none() || watermark_sys_id.is_none() {
        return KnowledgeSyncMode::Full;
    }
    if let Some(text) = full_sync_interval {
        if let Some(seconds) = parse_duration(text) {
            let stale: bool = match last_full_at {
                Some(last) => passed(last, now, seconds),
                None => true,
            };
            if stale {
                return KnowledgeSyncMode::Full;
            }
        }
    }
    KnowledgeSyncMode::Incremental
}

// --- how far a pass has come ---

/// What a pass over the articles has seen so far. The lists are ascending.
pub struct WatermarkProgress {
    pub processed: usize,
    pub tombstoned: usize,
    pub pruned: usize,
    pub watermark_updated_at: Option<String>,
    pub watermark_sys_id: Option<String>,
    pub seen_sys_ids: Vec<String>,
    pub changed_record_sys_ids: Vec<String>,
    pub removed_record_sys_ids: Vec<String>,
    pub changed_base_sys_ids: Vec<String>,
}

/// The last article of a pass: when it was changed, and its id.
pub struct Watermark {
    pub updated_at: Option<Seq<char>>,
    pub sys_id: Option<Seq<char>>,
}

/// Whether one place in the order of the articles is behind another.
pub open spec fn is_later(
    updated_at: Seq<char>,
    sys_id: Seq<char>,
    than_updated_at: Seq<char>,
    than_sys_id: Seq<char>,
) -> bool {
    text_less(than_updated_at, updated_at) || (updated_at == than_updated_at && text_less(
        than_sys_id,
        sys_id,
    ))
}

/// The watermark once an article has been seen. An article without a time of
/// change or without an id does not move it.
pub open spec fn moved(mark: Watermark, updated_at: Seq<char>, sys_id: Seq<char>) -> Watermark {
    let here = Watermark { updated_at: Some(updated_at), sys_id: Some(sys_id) };
    if updated_at.len() == 0 || sys_id.len() == 0 {
        mark
    } else {
        match (mark.updated_at, mark.sys_id) {
            (None, _) => here,
            (Some(u), Some(s)) => if is_later(updated_at, sys_id, u, s) {
                here
            } else {
                mark
            },
            (Some(u), None) => if !text_less(updated_at, u) {
                here
            } else {
                mark
            },
        }
    }
}

/// When a row was changed, as the provider says.
pub open spec fn changed_at(row: RowView) -> Seq<char> {
    match tag_text(row, "sys_updated_on"@) {
        Some(t) => trim(t),
        None => trim(Seq::empty()),
    }
}

/// The ids of `after` are those of `before` and `id`.
pub open spec fn joined_by(after: Seq<Seq<char>>, before: Seq<Seq<char>>, id: Seq<char>) -> bool {
    forall|t: Seq<char>| #[trigger] after.contains(t) <==> before.contains(t) || t == id
}

impl WatermarkProgress {
    pub open spec fn wf(self) -> bool {
        &&& ascending(texts(self.seen_sys_ids@))
        &&& ascending(texts(self.changed_record_sys_ids@))
        &&& ascending(texts(self.removed_record_sys_ids@))
        &&& ascending(texts(self.changed_base_sys_ids@))
    }

    pub open spec fn mark(self) -> Watermark {
        Watermark {
            updated_at: text_of(self.watermark_updated_at),
            sys_id: text_of(self.watermark_sys_id),
        }
    }

    pub fn new() -> (r: WatermarkProgress)
        ensures
            r.wf(),
            r.processed == 0,
            r.tombstoned == 0,
            r.pruned == 0,
            r.mark() == (Watermark { updated_at: None, sys_id: None }),
            r.seen_sys_ids@.len() == 0,
            r.changed_record_sys_ids@.len() == 0,
            r.removed_record_sys_ids@.len() == 0,
            r.changed_base_sys_ids@.len() == 0,
    {
        WatermarkProgress {
            processed: 0,
            tombstoned: 0,
            pruned: 0,
            watermark_updated_at: None,
            watermark_sys_id: None,
            seen_sys_ids: Vec::new(),
            changed_record_sys_ids: Vec::new(),
            removed_record_sys_ids: Vec::new(),
            changed_base_sys_ids: Vec::new(),
        }
    }

    /// Takes note of an article that the provider gave; `base` is the knowledge
    /// base that it belongs to.
    pub fn observe(&mut self, row: &Row, base: Option<&str>)
        requires
            old(self).wf(),
            old(self).processed < usize::MAX,
        ensures
            final(self).wf(),
            final(self).processed == old(self).processed + 1,
            final(self).tombstoned == old(self).tombstoned,
            final(self).pruned == old(self).pruned,
            final(self).removed_record_sys_ids == old(self).removed_record_sys_ids,
            joined_by(
                texts(final(self).seen_sys_ids@),
                texts(old(self).seen_sys_ids@),
                row@.sys_id,
            ),
            joined_by(
                texts(final(self).changed_record_sys_ids@),
                texts(old(self).changed_record_sys_ids@),
                row@.sys_id,
            ),
            if base is Some && base->0@.len() > 0 {
                joined_by(
                    texts(final(self).changed_base_sys_ids@),
                    texts(old(self).changed_base_sys_ids@),
                    base->0@,
                )
            } else {
                final(self).changed_base_sys_ids == old(self).changed_base_sys_ids
            },
            final(self).mark() == moved(old(self).mark(), changed_at(row@), row@.sys_id),
    {
        self.processed = self.processed + 1;
        insert_ascending(&mut self.seen_sys_ids, row.sys_id.as_str());
        insert_ascending(&mut self.changed_record_sys_ids, row.sys_id.as_str());
        if let Some(id) = base {
            if id.unicode_len() > 0 {
                insert_ascending(&mut self.changed_base_sys_ids, id);
            }
        }
        let updated_at: String = match row.get_raw("sys_updated_on") {
            Some(t) => trim_text(t),
            None => match row.get_str("sys_updated_on") {
                Some(t) => trim_text(t),
                None => {
                    let nothing: String = String::new();
                    assert(nothing@ =~= Seq::<char>::empty());
                    trim_text(nothing.as_str())
                },
            },
        };
        if updated_at.as_str().unicode_len() == 0 || row.sys_id.as_str().unicode_len() == 0 {
            return ;
        }
        let replace: bool = match (&self.watermark_updated_at, &self.watermark_sys_id) {
            (None, _) => true,
            (Some(u), Some(s)) => less_text(u.as_str(), updated_at.as_str()) || (same(
                updated_at.as_str(),
                u.as_str(),
            ) && less_text(s.as_str(), row.sys_id.as_str())),
            (Some(u), None) => !less_text(updated_at.as_str(), u.as_str()),
        };
        if replace {
            self.watermark_updated_at = Some(updated_at);
            self.watermark_sys_id = Some(row.sys_id.clone());
        }
    }

    /// Takes note of the knowledge base that an article belonged to before,
    /// where it belongs to another now: both have changed.
    pub fn observe_existing_base(&mut self, existing_base: Option<&str>, new_base: Option<&str>)
        requires
            old(self).wf(),
        ensures
            final(self).wf(),
            ({
                let new = match new_base {
                    Some(b) => b@,
                    None => Seq::empty(),
                };
                if existing_base is Some && existing_base->0@.len() > 0 && existing_base->0@
                    != new {
                    &&& joined_by(
                        texts(final(self).changed_base_sys_ids@),
                        texts(old(self).changed_base_sys_ids@),
                        existing_base->0@,
                    )
                    &&& *final(self) == (WatermarkProgress {
                        changed_base_sys_ids: final(self).changed_base_sys_ids,
                        ..*old(self)
                    })
                } else {
                    *final(self) == *old(self)
                }
            }),
    {
        if let Some(existing) = existing_base {
            let unchanged: bool = match new_base {
                Some(b) => same(existing, b),
                None => existing.unicode_len() == 0,
            };
            proof {
                if existing@.len() == 0 {
                    assert(existing@ =~= Seq::<char>::empty());
                }
            }
            if existing.unicode_len() > 0 && !unchanged {
                insert_ascending(&mut self.changed_base_sys_ids, existing);
            }
        }
    }
}

/// A watermark never moves back, and once it is set it is behind no article that
/// was seen.
pub proof fn watermarks_only_advance(mark: Watermark, updated_at: Seq<char>, sys_id: Seq<char>)
    requires
        mark.updated_at is Some <==> mark.sys_id is Some,
    ensures
        ({
            let after = moved(mark, updated_at, sys_id);
            &&& after.updated_at is Some <==> after.sys_id is Some
            &&& mark.updated_at is Some ==> after.updated_at is Some && !is_later(
                mark.updated_at->0,
                mark.sys_id->0,
                after.updated_at->0,
                after.sys_id->0,
            )
            &&& updated_at.len() > 0 && sys_id.len() > 0 ==> after.updated_at is Some && !is_later(
                updated_at,
                sys_id,
                after.updated_at->0,
                after.sys_id->0,
            )
            &&& after == mark || after == (Watermark {
                updated_at: Some(updated_at),
                sys_id: Some(sys_id),
            })
        }),
{
    lemma_text_order(updated_at, updated_at, updated_at);
    lemma_text_order(sys_id, sys_id, sys_id);
    if mark.updated_at is Some {
        let u = mark.updated_at->0;
        let s = mark.sys_id->0;
        lemma_text_order(u, updated_at, u);
        lemma_text_order(s, sys_id, s);
        lemma_text_order(u, u, u);
        lemma_text_order(s, s, s);
        lemma_text_order(updated_at, u, updated_at);
        lemma_text_order(sys_id, s, sys_id);
    }
}

/// The watermark once some articles were seen: when each was changed, and its id.
pub open spec fn mark_of(articles: Seq<(Seq<char>, Seq<char>)>) -> Watermark
    decreases articles.len(),
{
    if articles.len() == 0 {
        Watermark { updated_at: None, sys_id: None }
    } else {
        moved(mark_of(articles.drop_last()), articles.last().0, articles.last().1)
    }
}

/// Whether an article can move a watermark.
pub open spec fn can_move(article: (Seq<char>, Seq<char>)) -> bool {
    article.0.len() > 0 && article.1.len() > 0
}

/// The watermark of any list of articles is the latest of them, by their time of
/// change and then by their id: it is one of them and none is behind it; and there
/// is none where no article has both.
pub proof fn watermarks_are_the_latest(articles: Seq<(Seq<char>, Seq<char>)>)
    ensures
        ({
            let mark = mark_of(articles);
            &&& mark.updated_at is Some <==> mark.sys_id is Some
            &&& mark.updated_at is Some <==> exists|i: int|
                0 <= i < articles.len() && can_move(#[trigger] articles[i])
            &&& mark.updated_at is Some ==> exists|i: int|
                0 <= i < articles.len() && can_move(#[trigger] articles[i]) && articles[i] == (
                    mark.updated_at->0,
                    mark.sys_id->0,
                )
            &&& mark.updated_at is Some ==> forall|i: int|
                0 <= i < articles.len() && can_move(#[trigger] articles[i]) ==> !is_later(
                    articles[i].0,
                    articles[i].1,
                    mark.updated_at->0,
                    mark.sys_id->0,
                )
        }),
    decreases articles.len(),
{
    if articles.len() > 0 {
        let front = articles.drop_last();
        let last = articles.last();
        let before = mark_of(front);
        let mark = mark_of(articles);
        watermarks_are_the_latest(front);
        watermarks_only_advance(before, last.0, last.1);
        assert(articles[articles.len() - 1] == last);
        if before.updated_at is Some {
            let k = choose|k: int|
                0 <= k < front.len() && can_move(#[trigger] front[k]) && front[k] == (
                    before.updated_at->0,
                    before.sys_id->0,
                );
            assert(articles[k] == front[k]);
        }
        assert forall|i: int| 0 <= i < articles.len() && can_move(
            #[trigger] articles[i],
        ) implies mark.updated_at is Some && !is_later(
            articles[i].0,
            articles[i].1,
            mark.updated_at->0,
            mark.sys_id->0,
        ) by {
            if i < front.len() {
                assert(front[i] == articles[i]);
                let u = before.updated_at->0;
                let s = before.sys_id->0;
                lemma_text_order(articles[i].0, u, mark.updated_at->0);
                lemma_text_order(mark.updated_at->0, u, articles[i].0);
                lemma_text_order(articles[i].1, s, mark.sys_id->0);
                lemma_text_order(mark.sys_id->0, s, articles[i].1);
                lemma_text_order(u, articles[i].0, mark.updated_at->0);
                lemma_text_order(u, mark.updated_at->0, articles[i].0);
            }
        }
    }
}

/// The later watermark of two articles does not depend on which was seen first.
pub proof fn watermarks_do_not_depend_on_order(
    u1: Seq<char>,
    s1: Seq<char>,
    u2: Seq<char>,
    s2: Seq<char>,
)
    ensures
        ({
            let none = Watermark { updated_at: None, sys_id: None };
            moved(moved(none, u1, s1), u2, s2) == moved(moved(none, u2, s2), u1, s1)
        }),
{
    lemma_text_order(u1, u2, u1);
    lemma_text_order(u2, u1, u2);
    lemma_text_order(s1, s2, s1);
    lemma_text_order(s2, s1, s2);
}

// --- articles that the provider no longer gives ---

/// Where an article of the store stands.
#[derive(Debug, Clone, Copy, PartialEq, Eq, Structural)]
pub enum RecordLifecycle {
    Active,
    Tombstoned,
    Pruned,
}

#[derive(Debug, Clone, PartialEq, Eq)]
pub struct StoredArticle {
    pub sys_id: String,
    pub knowledge_base_sys_id: Option<String>,
    pub lifecycle: RecordLifecycle,
}

/// What is to be done with an article that is gone.
#[derive(Debug, Clone, PartialEq, Eq)]
pub enum Removal {
    Tombstone(String),
    Prune(String),
}

pub enum RemovalView {
    Tombstone(Seq<char>),
    Prune(Seq<char>),
}

impl View for Removal {
    type V = RemovalView;

    open spec fn view(&self) -> RemovalView {
        match *self {
            Removal::Tombstone(id) => RemovalView::Tombstone(id@),
            Removal::Prune(id) => RemovalView::Prune(id@),
        }
    }
}

impl RemovalView {
    pub open spec fn id(self) -> Seq<char> {
        match self {
            RemovalView::Tombstone(id) => id,
            RemovalView::Prune(id) => id,
        }
    }
}

/// What becomes of an article of the store: nothing where it was seen; else an
/// active one is set aside, and one that was set aside before is dropped.
pub open spec fn removal_of(row: StoredArticle, seen: Seq<Seq<char>>) -> Option<RemovalView> {
    if seen.contains(row.sys_id@) {
        None
    } else {
        match row.lifecycle {
            RecordLifecycle::Active => Some(RemovalView::Tombstone(row.sys_id@)),
            RecordLifecycle::Tombstoned => Some(RemovalView::Prune(row.sys_id@)),
            RecordLifecycle::Pruned => None,
        }
    }
}

/// The removals for a list of articles, in their order.
pub open spec fn removals(rows: Seq<StoredArticle>, seen: Seq<Seq<char>>) -> Seq<RemovalView>
    decreases rows.len(),
{
    if rows.len() == 0 {
        Seq::empty()
    } else {
        match removal_of(rows.last(), seen) {
            Some(r) => removals(rows.drop_last(), seen).push(r),
            None => removals(rows.drop_last(), seen),
        }
    }
}

/// How many of the removals set an article aside.
pub open spec fn tombstones(list: Seq<RemovalView>) -> nat
    decreases list.len(),
{
    if list.len() == 0 {
        0
    } else {
        tombstones(list.drop_last()) + if list.last() is Tombstone {
            1nat
        } else {
            0nat
        }
    }
}

pub open spec fn removal_views(list: Seq<Removal>) -> Seq<RemovalView> {
    list.map_values(|r: Removal| r@)
}

/// Whether the knowledge base `b` loses an article among the rows.
pub open spec fn loses_article(rows: Seq<StoredArticle>, seen: Seq<Seq<char>>, b: Seq<char>) -> bool {
    b.len() > 0 && exists|i: int|
        0 <= i < rows.len() && !seen.contains((#[trigger] rows[i]).sys_id@) && text_of(
            rows[i].knowledge_base_sys_id,
        ) == Some(b)
}

pub open spec fn removes(list: Seq<RemovalView>, t: Seq<char>) -> bool {
    exists|i: int| 0 <= i < list.len() && (#[trigger] list[i]).id() == t
}

/// Compares the articles of the store with those that a full pass has seen.
pub fn reconcile_full_knowledge_sync(
    rows: &Vec<StoredArticle>,
    progress: &mut WatermarkProgress,
) -> (r: Vec<Removal>)
    requires
        old(progress).wf(),
        old(progress).tombstoned + rows@.len() <= usize::MAX,
        old(progress).pruned + rows@.len() <= usize::MAX,
    ensures
        final(progress).wf(),
        removal_views(r@) == removals(rows@, texts(old(progress).seen_sys_ids@)),
        final(progress).tombstoned == old(progress).tombstoned + tombstones(removal_views(r@)),
        final(progress).pruned == old(progress).pruned + r@.len() - tombstones(removal_views(r@)),
        forall|t: Seq<char>| #[trigger]
            texts(final(progress).removed_record_sys_ids@).contains(t) <==> texts(
                old(progress).removed_record_sys_ids@,
            ).contains(t) || removes(removal_views(r@), t),
        forall|t: Seq<char>| #[trigger]
            texts(final(progress).changed_base_sys_ids@).contains(t) <==> texts(
                old(progress).changed_base_sys_ids@,
            ).contains(t) || loses_article(rows@, texts(old(progress).seen_sys_ids@), t),
        *final(progress) == (WatermarkProgress {
            tombstoned: final(progress).tombstoned,
            pruned: final(progress).pruned,
            removed_record_sys_ids: final(progress).removed_record_sys_ids,
            changed_base_sys_ids: final(progress).changed_base_sys_ids,
            ..*old(progress)
        }),
{
    let ghost before = *progress;
    let ghost seen = texts(progress.seen_sys_ids@);
    let ghost removed = texts(progress.removed_record_sys_ids@);
    let ghost bases = texts(progress.changed_base_sys_ids@);
    let mut out: Vec<Removal> = Vec::new();
    let mut i: usize = 0;
    proof {
        assert(rows@.subrange(0, 0) =~= Seq::<StoredArticle>::empty());
        assert(removal_views(out@) =~= Seq::<RemovalView>::empty());
    }
    while i < rows.len()
        invariant
            i <= rows@.len(),
            progress.wf(),
            seen == texts(before.seen_sys_ids@),
            progress.seen_sys_ids == before.seen_sys_ids,
            before.tombstoned + rows@.len() <= usize::MAX,
            before.pruned + rows@.len() <= usize::MAX,
            out@.len() <= i,
            tombstones(removal_views(out@)) <= out@.len(),
            removal_views(out@) == removals(rows@.subrange(0, i as int), seen),
            progress.tombstoned == before.tombstoned + tombstones(removal_views(out@)),
            progress.pruned == before.pruned + out@.len() - tombstones(removal_views(out@)),
            forall|t: Seq<char>| #[trigger]
                texts(progress.removed_record_sys_ids@).contains(t) <==> removed.contains(t)
                    || removes(removal_views(out@), t),
            forall|t: Seq<char>| #[trigger]
                texts(progress.changed_base_sys_ids@).contains(t) <==> bases.contains(t)
                    || loses_article(rows@.subrange(0, i as int), seen, t),
            *progress == (WatermarkProgress {
                tombstoned: progress.tombstoned,
                pruned: progress.pruned,
                removed_record_sys_ids: progress.removed_record_sys_ids,
                changed_base_sys_ids: progress.changed_base_sys_ids,
                ..before
            }),
        decreases rows@.len() - i,
    {
        let row: &StoredArticle = &rows[i];
        let ghost shorter = rows@.subrange(0, i as int);
        let ghost longer = rows@.subrange(0, i + 1);
        let ghost now_bases = texts(progress.changed_base_sys_ids@);
        let ghost now_removed = texts(progress.removed_record_sys_ids@);
        let ghost now_out = removal_views(out@);
        proof {
            assert(longer.drop_last() =~= shorter);
            assert(longer.last() == *row);
        }
        let was_seen: bool = list_has(&progress.seen_sys_ids, row.sys_id.as_str());
        if !was_seen {
            if let Some(base) = &row.knowledge_base_sys_id {
                if base.as_str().unicode_len() > 0 {
                    insert_ascending(&mut progress.changed_base_sys_ids, base.as_str());
                }
            }
            match row.lifecycle {
                RecordLifecycle::Active => {
                    out.push(Removal::Tombstone(row.sys_id.clone()));
                    progress.tombstoned = progress.tombstoned + 1;
                    insert_ascending(&mut progress.removed_record_sys_ids, row.sys_id.as_str());
                },
                RecordLifecycle::Tombstoned => {
                    out.push(Removal::Prune(row.sys_id.clone()));
                    progress.pruned = progress.pruned + 1;
                    insert_ascending(&mut progress.removed_record_sys_ids, row.sys_id.as_str());
                },
                RecordLifecycle::Pruned => {},
            }
        }
        proof {
            if let Some(removal) = removal_of(*row, seen) {
                assert(removal_views(out@) =~= now_out.push(removal));
                assert(now_out.push(removal).drop_last() =~= now_out);
                lemma_removes_push(now_out, removal);
            } else {
                assert(removal_views(out@) =~= now_out);
            }
            assert forall|t: Seq<char>| #[trigger]
                texts(progress.changed_base_sys_ids@).contains(t) <==> bases.contains(t)
                    || loses_article(longer, seen, t) by {
                lemma_loses_push(shorter, *row, seen, t);
                assert(shorter.push(*row) =~= longer);
                assert(now_bases.contains(t) <==> bases.contains(t) || loses_article(
                    shorter,
                    seen,
                    t,
                ));
            }
            assert forall|t: Seq<char>| #[trigger]
                texts(progress.removed_record_sys_ids@).contains(t) <==> removed.contains(t)
                    || removes(removal_views(out@), t) by {
                assert(now_removed.contains(t) <==> removed.contains(t) || removes(now_out, t));
            }
        }
        i += 1;
    }
    assert(rows@.subrange(0, i as int) =~= rows@);
    out
}

proof fn lemma_removes_push(list: Seq<RemovalView>, r: RemovalView)
    ensures
        forall|t: Seq<char>| #[trigger] removes(list.push(r), t) <==> removes(list, t) || r.id() == t,
{
    let longer = list.push(r);
    assert forall|t: Seq<char>| #[trigger] removes(longer, t) <==> removes(list, t) || r.id()
        == t by {
        if removes(list, t) {
            let k = choose|k: int| 0 <= k < list.len() && (#[trigger] list[k]).id() == t;
            assert(longer[k].id() == t);
        }
        if r.id() == t {
            assert(longer[list.len() as int].id() == t);
        }
        if removes(longer, t) {
            let k = choose|k: int| 0 <= k < longer.len() && (#[trigger] longer[k]).id() == t;
            if k < list.len() {
                assert(list[k].id() == t);
            }
        }
    }
}

proof fn lemma_loses_push(
    rows: Seq<StoredArticle>,
    row: StoredArticle,
    seen: Seq<Seq<char>>,
    b: Seq<char>,
)
    ensures
        loses_article(rows.push(row), seen, b) <==> loses_article(rows, seen, b) || (b.len() > 0
            && !seen.contains(row.sys_id@) && text_of(row.knowledge_base_sys_id) == Some(b)),
{
    let longer = rows.push(row);
    if loses_article(rows, seen, b) {
        let k = choose|k: int|
            0 <= k < rows.len() && !seen.contains((#[trigger] rows[k]).sys_id@) && text_of(
                rows[k].knowledge_base_sys_id,
            ) == Some(b);
        assert(longer[k] == rows[k]);
    }
    if b.len() > 0 && !seen.contains(row.sys_id@) && text_of(row.knowledge_base_sys_id) == Some(
        b,
    ) {
        assert(longer[rows.len() as int] == row);
    }
    if loses_article(longer, seen, b) {
        let k = choose|k: int|
            0 <= k < longer.len() && !seen.contains((#[trigger] longer[k]).sys_id@) && text_of(
                longer[k].knowledge_base_sys_id,
            ) == Some(b);
        if k < rows.len() {
            assert(rows[k] == longer[k]);
        }
    }
}

/// An article that a pass has seen is left alone, and one that is dropped was set
/// aside by an earlier pass.
pub proof fn articles_leave_in_two_steps(rows: Seq<StoredArticle>, seen: Seq<Seq<char>>)
    ensures
        forall|i: int|
            0 <= i < removals(rows, seen).len() ==> !seen.contains(
                (#[trigger] removals(rows, seen)[i]).id(),
            ),
        forall|i: int|
            0 <= i < removals(rows, seen).len() && (#[trigger] removals(rows, seen)[i]) is Prune
                ==> exists|k: int|
                0 <= k < rows.len() && (#[trigger] rows[k]).lifecycle
                    == RecordLifecycle::Tombstoned && rows[k].sys_id@ == removals(
                    rows,
                    seen,
                )[i].id(),
    decreases rows.len(),
{
    if rows.len() > 0 {
        let front = rows.drop_last();
        articles_leave_in_two_steps(front, seen);
        let before = removals(front, seen);
        let after = removals(rows, seen);
        assert forall|i: int| 0 <= i < after.len() implies !seen.contains(
            (#[trigger] after[i]).id(),
        ) by {
            if i < before.len() {
                assert(after[i] == before[i]);
            }
        }
        assert forall|i: int| 0 <= i < after.len() && (#[trigger] after[i]) is Prune implies exists|
            k: int,
        |
            0 <= k < rows.len() && (#[trigger] rows[k]).lifecycle == RecordLifecycle::Tombstoned
                && rows[k].sys_id@ == after[i].id() by {
            if i < before.len() {
                assert(after[i] == before[i]);
                let k = choose|k: int|
                    0 <= k < front.len() && (#[trigger] front[k]).lifecycle
                        == RecordLifecycle::Tombstoned && front[k].sys_id@ == before[i].id();
                assert(rows[k] == front[k]);
            } else {
                assert(rows[rows.len() - 1].sys_id@ == after[i].id());
            }
        }
    }
}

// --- the state that is kept between passes ---

/// What is kept between passes. Times are in nanosecond precision.
#[derive(Debug, Clone, PartialEq, Eq)]
pub struct KbSyncState {
    pub last_full_at: Option<Moment>,
    pub last_incr_at: Option<Moment>,
    pub watermark_updated_at: Option<String>,
    pub watermark_sys_id: Option<String>,
    pub kb_sync_lock: Option<i64>,
}

pub open spec fn first_of<T>(a: Option<T>, b: Option<T>) -> Option<T> {
    match a {
        Some(x) => Some(x),
        None => b,
    }
}

/// The state after a pass: the time of the pass, and its watermark where it has
/// one. The lock is free.
pub fn next_sync_state(
    previous: KbSyncState,
    progress: &WatermarkProgress,
    mode: KnowledgeSyncMode,
    now: Moment,
) -> (r: KbSyncState)
    ensures
        r.last_full_at == (if mode == KnowledgeSyncMode::Full {
            Some(now)
        } else {
            previous.last_full_at
        }),
        r.last_incr_at == (if mode == KnowledgeSyncMode::Incremental {
            Some(now)
        } else {
            previous.last_incr_at
        }),
        r.watermark_updated_at == first_of(
            progress.watermark_updated_at,
            previous.watermark_updated_at,
        ),
        r.watermark_sys_id == first_of(progress.watermark_sys_id, previous.watermark_sys_id),
        r.kb_sync_lock is None,
{
    let full: bool = match mode {
        KnowledgeSyncMode::Full => true,
        KnowledgeSyncMode::Incremental => false,
    };
    KbSyncState {
        last_full_at: if full {
            Some(now)
        } else {
            previous.last_full_at
        },
        last_incr_at: if full {
            previous.last_incr_at
        } else {
            Some(now)
        },
        watermark_updated_at: match &progress.watermark_updated_at {
            Some(t) => Some(t.clone()),
            None => previous.watermark_updated_at,
        },
        watermark_sys_id: match &progress.watermark_sys_id {
            Some(t) => Some(t.clone()),
            None => previous.watermark_sys_id,
        },
        kb_sync_lock: None,
    }
}

/// Whether a pass brings the bodies of the articles: an incremental one always
/// does.
pub fn with_bodies(requested: bool, mode: KnowledgeSyncMode) -> (r: bool)
    ensures
        r == (requested || mode == KnowledgeSyncMode::Incremental),
{
    match mode {
        KnowledgeSyncMode::Full => requested,
        KnowledgeSyncMode::Incremental => true,
    }
}

pub open spec fn outcome_details(
    processed: nat,
    drift: nat,
    tombstoned: nat,
    pruned: nat,
) -> Seq<char> {
    "processed "@ + decimal(processed) + " articles, auto-tag drift "@ + decimal(drift)
        + ", tombstoned "@ + decimal(tombstoned) + ", pruned "@ + decimal(pruned)
}

/// What is reported of a pass that is done.
pub fn completed_outcome(
    mode: KnowledgeSyncMode,
    bodies: bool,
    progress: &WatermarkProgress,
    drift: usize,
) -> (r: KnowledgeSyncOutcome)
    ensures
        r.accepted,
        r.mode == mode,
        r.with_bodies == bodies,
        r.status@ == "completed"@,
        text_of(r.details) == Some(
            outcome_details(
                progress.processed as nat,
                drift as nat,
                progress.tombstoned as nat,
                progress.pruned as nat,
            ),
        ),
{
    let mut details: String = "processed ".to_owned();
    details.append(decimal_text(progress.processed as u64).as_str());
    details.append(" articles, auto-tag drift ");
    details.append(decimal_text(drift as u64).as_str());
    details.append(", tombstoned ");
    details.append(decimal_text(progress.tombstoned as u64).as_str());
    details.append(", pruned ");
    details.append(decimal_text(progress.pruned as u64).as_str());
    KnowledgeSyncOutcome {
        accepted: true,
        mode,
        with_bodies: bodies,
        status: "completed".to_owned(),
        details: Some(details),
    }
}

/// What is reported where another pass holds the lock.
pub fn locked_outcome(full: bool, bodies: bool) -> (r: KnowledgeSyncOutcome)
    ensures
        !r.accepted,
        r.mode == (if full {
            KnowledgeSyncMode::Full
        } else {
            KnowledgeSyncMode::Incremental
        }),
        r.with_bodies == bodies,
        r.status@ == "locked"@,
        text_of(r.details) == Some("another KB sync is already in progress"@),
{
    KnowledgeSyncOutcome {
        accepted: false,
        mode: if full {
            KnowledgeSyncMode::Full
        } else {
            KnowledgeSyncMode::Incremental
        },
        with_bodies: bodies,
        status: "locked".to_owned(),
        details: Some("another KB sync is already in progress".to_owned()),
    }
}

/// The result of a pass, once its lock has been released or could not be: the
/// pass succeeded only where both did.
pub fn finish_sync(
    result: Result<KnowledgeSyncOutcome, String>,
    release: Result<(), String>,
) -> (r: Result<KnowledgeSyncOutcome, String>)
    ensures
        match (result, release) {
            (Ok(outcome), Ok(_)) => r == Ok::<KnowledgeSyncOutcome, String>(outcome),
            (Err(e), Ok(_)) => r == Err::<KnowledgeSyncOutcome, String>(e),
            (Ok(_), Err(e)) => r == Err::<KnowledgeSyncOutcome, String>(e),
            (Err(a), Err(b)) => r is Err && r->Err_0@ == a@
                + "; failed to release KB sync lock: "@ + b@,
        },
{
    match result {
        Ok(outcome) => match release {
            Ok(_) => Ok(outcome),
            Err(e) => Err(e),
        },
        Err(a) => match release {
            Ok(_) => Err(a),
            Err(b) => Err(
                joined3(a.as_str(), "; failed to release KB sync lock: ", b.as_str()),
            ),
        },
    }
}

// --- what is asked of the provider ---

pub const KB_PAGE_SIZE: u32 = 200;

pub const KB_METADATA_FIELDS: [&'static str; 19] = [
    "sys_id",
    "number",
    "short_description",
    "description",
    "state",
    "workflow_state",
    "article_type",
    "valid_to",
    "published",
    "knowledge_base",
    "category",
    "kb_knowledge_base",
    "kb_category",
    "author",
    "sys_updated_on",
    "u_keywords",
    "keywords",
    "meta",
    "sys_tags",
];

pub const KB_FULL_FIELDS: [&'static str; 21] = [
    "sys_id",
    "number",
    "short_description",
    "description",
    "state",
    "workflow_state",
    "article_type",
    "valid_to",
    "published",
    "knowledge_base",
    "category",
    "kb_knowledge_base",
    "kb_category",
    "author",
    "sys_updated_on",
    "u_keywords",
    "keywords",
    "meta",
    "sys_tags",
    "article_body",
    "text",
];

/// One term of a filter put into a query: a field that is to be, or not to be,
/// equal to a value.
pub open spec fn filter_step() -> spec_fn(QueryView, Seq<char>) -> Result<QueryView, Seq<char>> {
    |q: QueryView, piece: Seq<char>| with_term(q, trim(piece))
}

pub open spec fn with_term(q: QueryView, term: Seq<char>) -> Result<QueryView, Seq<char>> {
    if term.len() == 0 {
        Ok(q)
    } else {
        match parted(term, "!="@) {
            Some((field, value)) => Ok(
                q.when(false, trim(field), Operator::NotEquals, trim(value)),
            ),
            None => match parted(term, "="@) {
                Some((field, value)) => Ok(q.equals(trim(field), trim(value))),
                None => Err("unsupported knowledge filter `"@ + term + "`"@),
            },
        }
    }
}

/// A filter put into a query, term by term.
pub open spec fn with_filter(q: QueryView, filter: Seq<char>) -> Result<QueryView, Seq<char>> {
    pass(pieces(filter, Separator::Caret), q, filter_step())
}

fn apply_term(query: Query, term: &str) -> (r: Result<Query, String>)
    ensures
        match r {
            Ok(q) => with_term(query@, term@) == Ok::<QueryView, Seq<char>>(q@),
            Err(e) => with_term(query@, term@) == Err::<QueryView, Seq<char>>(e@),
        },
{
    if term.unicode_len() == 0 {
        return Ok(query);
    }
    match split_once(term, "!=") {
        Some((field, value)) => {
            let f: String = trim_text(field.as_str());
            let v: String = trim_text(value.as_str());
            Ok(query.when(false, f.as_str(), Operator::NotEquals, v.as_str()))
        },
        None => match split_once(term, "=") {
            Some((field, value)) => {
                let f: String = trim_text(field.as_str());
                let v: String = trim_text(value.as_str());
                Ok(query.equals(f.as_str(), v.as_str()))
            },
            None => Err(joined3("unsupported knowledge filter `", term, "`")),
        },
    }
}

/// Puts a filter such as `a=1^b!=2` into a query.
#[verifier::loop_isolation(false)]
pub fn apply_simple_encoded_filter(query: Query, filter: &str) -> (r: Result<Query, String>)
    ensures
        match r {
            Ok(q) => with_filter(query@, filter@) == Ok::<QueryView, Seq<char>>(q@),
            Err(e) => with_filter(query@, filter@) == Err::<QueryView, Seq<char>>(e@),
        },
{
    let parts: Vec<String> = split_text(filter, Separator::Caret);
    let ghost all = texts(parts@);
    let ghost start = query@;
    let ghost step = filter_step();
    let mut q: Query = query;
    let mut i: usize = 0;
    proof {
        lemma_pass_done(all, start, step);
    }
    while i < parts.len()
        invariant
            i <= parts@.len(),
            pass(all.subrange(0, i as int), start, step) == Ok::<QueryView, Seq<char>>(q@),
        decreases parts@.len() - i,
    {
        let term: String = trim_text(parts[i].as_str());
        proof {
            lemma_pass_step(all, start, step, i as int);
            assert(all[i as int] == parts@[i as int]@);
        }
        match apply_term(q, term.as_str()) {
            Ok(next) => {
                q = next;
            },
            Err(e) => {
                proof {
                    lemma_pass_stopped(all, start, step, i + 1);
                }
                return Err(e);
            },
        }
        i += 1;
    }
    Ok(q)
}

/// The query for the articles, before the filter.
pub open spec fn plain_knowledge_query(bodies: bool) -> QueryView {
    QueryView::of("kb_knowledge"@).fields(
        if bodies {
            names_of(KB_FULL_FIELDS@)
        } else {
            names_of(KB_METADATA_FIELDS@)
        },
    ).display(DisplayMode::Both).ascending("sys_updated_on"@).ascending("sys_id"@).limit(
        KB_PAGE_SIZE,
    )
}

/// The filter that counts: the one given, or that for published articles where
/// none is given or it is blank.
pub open spec fn effective_filter(filter: Option<Seq<char>>) -> Seq<char> {
    match filter {
        Some(f) => if is_blank(f) {
            "workflow_state=published"@
        } else {
            f
        },
        None => "workflow_state=published"@,
    }
}

pub open spec fn knowledge_query(bodies: bool, filter: Option<Seq<char>>) -> Result<
    QueryView,
    Seq<char>,
> {
    with_filter(plain_knowledge_query(bodies), effective_filter(filter))
}

/// The query for the articles.
pub fn base_knowledge_query(bodies: bool, filter: Option<&str>) -> (r: Result<Query, String>)
    ensures
        match r {
            Ok(q) => knowledge_query(bodies, text_of_ref(filter)) == Ok::<QueryView, Seq<char>>(q@),
            Err(e) => knowledge_query(bodies, text_of_ref(filter)) == Err::<QueryView, Seq<char>>(
                e@,
            ),
        },
{
    let fields: Vec<String> = if bodies {
        strings_of(&KB_FULL_FIELDS)
    } else {
        strings_of(&KB_METADATA_FIELDS)
    };
    let query: Query = Query::of("kb_knowledge").fields(&fields).display(
        DisplayMode::Both,
    ).ascending("sys_updated_on").ascending("sys_id").limit(KB_PAGE_SIZE);
    let given: &str = match filter {
        Some(f) => if blank(f) {
            "workflow_state=published"
        } else {
            f
        },
        None => "workflow_state=published",
    };
    apply_simple_encoded_filter(query, given)
}

/// The two queries of an incremental pass: the articles changed at the moment of
/// the watermark with a later id, and those changed after it.
pub fn incremental_queries(updated_at: &str, sys_id: &str, filter: Option<&str>) -> (r: Result<
    (Query, Query),
    String,
>)
    ensures
        match r {
            Ok((same_time, newer)) => {
                let base = knowledge_query(true, text_of_ref(filter));
                &&& base is Ok
                &&& same_time@ == base->Ok_0.equals("sys_updated_on"@, updated_at@).greater_than(
                    "sys_id"@,
                    sys_id@,
                )
                &&& newer@ == base->Ok_0.greater_than("sys_updated_on"@, updated_at@)
            },
            Err(e) => knowledge_query(true, text_of_ref(filter)) == Err::<QueryView, Seq<char>>(e@),
        },
{
    let a: Query = match base_knowledge_query(true, filter) {
        Ok(q) => q,
        Err(e) => {
            return Err(e);
        },
    };
    let b: Query = match base_knowledge_query(true, filter) {
        Ok(q) => q,
        Err(e) => {
            return Err(e);
        },
    };
    Ok(
        (
            a.equals("sys_updated_on", updated_at).greater_than("sys_id", sys_id),
            b.greater_than("sys_updated_on", updated_at),
        ),
    )
}

/// What the two queries of an incremental pass ask for are the articles behind
/// the watermark, and no article is asked for twice.
pub proof fn incremental_queries_cover_what_is_new(
    updated_at: Seq<char>,
    sys_id: Seq<char>,
    mark_updated_at: Seq<char>,
    mark_sys_id: Seq<char>,
)
    ensures
        ({
            let same_time = updated_at == mark_updated_at && text_less(mark_sys_id, sys_id);
            let newer = text_less(mark_updated_at, updated_at);
            &&& is_later(updated_at, sys_id, mark_updated_at, mark_sys_id) <==> same_time || newer
            &&& !(same_time && newer)
        }),
{
    lemma_text_order(mark_updated_at, mark_updated_at, mark_updated_at);
}

/// The conditions on the knowledge base and the category of an article.
pub open spec fn filed_under(
    q: QueryView,
    knowledge_base: Option<Seq<char>>,
    category: Option<Seq<char>>,
) -> QueryView {
    referring(referring(q, "kb_knowledge_base"@, knowledge_base), "kb_category"@, category)
}

fn file_under(query: Query, knowledge_base: Option<&str>, category: Option<&str>) -> (r: Query)
    ensures
        r@ == filed_under(query@, text_of_ref(knowledge_base), text_of_ref(category)),
{
    reference_filter(
        reference_filter(query, "kb_knowledge_base", knowledge_base),
        "kb_category",
        category,
    )
}

/// A number of articles as a query takes it: at least one, and no more than
/// 32 bits hold.
pub open spec fn query_limit(n: int) -> u32 {
    if n < 1 {
        1
    } else if n > u32::MAX {
        u32::MAX
    } else {
        n as u32
    }
}

fn limit_of(n: usize) -> (r: u32)
    ensures
        r == query_limit(n as int),
{
    if n < 1 {
        1
    } else if n > 4294967295 {
        4294967295
    } else {
        n as u32
    }
}

/// The query for a search by title. Where there is nothing to search for, there
/// is none, and nothing is found.
pub fn knowledge_search_query(
    text: &str,
    limit: Option<usize>,
    knowledge_base: Option<&str>,
    category: Option<&str>,
    filter: Option<&str>,
) -> (r: Result<Option<Query>, String>)
    ensures
        match r {
            Ok(None) => is_blank(text@),
            Ok(Some(q)) => {
                let base = knowledge_query(true, text_of_ref(filter));
                let most: int = match limit {
                    Some(n) => n as int,
                    None => 20,
                };
                &&& !is_blank(text@)
                &&& base is Ok
                &&& q@ == filed_under(
                    base->Ok_0.limit(query_limit(most)).contains(
                        "short_description"@,
                        trim(text@),
                    ),
                    text_of_ref(knowledge_base),
                    text_of_ref(category),
                )
            },
            Err(e) => !is_blank(text@) && knowledge_query(true, text_of_ref(filter)) == Err::<
                QueryView,
                Seq<char>,
            >(e@),
        },
{
    let wanted: String = trim_text(text);
    if wanted.as_str().unicode_len() == 0 {
        return Ok(None);
    }
    let most: usize = match limit {
        Some(n) => n,
        None => 20,
    };
    let base: Query = match base_knowledge_query(true, filter) {
        Ok(q) => q,
        Err(e) => {
            return Err(e);
        },
    };
    let query: Query = base.limit(limit_of(most)).contains("short_description", wanted.as_str());
    Ok(Some(file_under(query, knowledge_base, category)))
}

/// The query for a listing, and how many articles it may bring at most.
pub fn knowledge_list_query(
    knowledge_base: Option<&str>,
    category: Option<&str>,
    limit: Option<usize>,
    filter: Option<&str>,
) -> (r: Result<(Query, Option<u64>), String>)
    ensures
        match r {
            Ok((q, most)) => {
                let base = knowledge_query(true, text_of_ref(filter));
                let filed = filed_under(
                    base->Ok_0,
                    text_of_ref(knowledge_base),
                    text_of_ref(category),
                );
                &&& base is Ok
                &&& match limit {
                    Some(n) => {
                        &&& q@ == filed.limit(query_limit(n as int))
                        &&& most == Some(
                            if n < 1 {
                                1u64
                            } else {
                                n as u64
                            },
                        )
                    },
                    None => q@ == filed && most is None,
                }
            },
            Err(e) => knowledge_query(true, text_of_ref(filter)) == Err::<QueryView, Seq<char>>(e@),
        },
{
    let base: Query = match base_knowledge_query(true, filter) {
        Ok(q) => q,
        Err(e) => {
            return Err(e);
        },
    };
    let query: Query = file_under(base, knowledge_base, category);
    match limit {
        Some(n) => {
            let most: u64 = if n < 1 {
                1
            } else {
                n as u64
            };
            Ok((query.limit(limit_of(n)), Some(most)))
        },
        None => Ok((query, None)),
    }
}

/// The query for one article with its body.
pub fn knowledge_article_query(number: &str) -> (r: Query)
    ensures
        r@ == QueryView::of("kb_knowledge"@).fields(names_of(KB_FULL_FIELDS@)).equals(
            "number"@,
            number@,
        ).display(DisplayMode::Both).limit(1),
{
    Query::of("kb_knowledge").fields(&strings_of(&KB_FULL_FIELDS)).equals("number", number).display(
        DisplayMode::Both,
    ).limit(1)
}

} // verus!
