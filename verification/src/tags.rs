//! Tags of knowledge articles.
use vstd::prelude::*;
use vstd::string::*;

use crate::row::{Row, RowView};
use crate::split::{pieces, split_text, Separator};
use crate::text::{
    lemma_lower_idempotent, lemma_texts_push, list_has, lower, lower_text, texts, trim, trim_text,
};

verus! {

/// The layers of tags on an article: those from the provider, those derived
/// from its words, and those of the user.
#[derive(Debug, Clone, Copy, PartialEq, Eq, Structural)]
pub enum KnowledgeTagLayer {
    Sn,
    Auto,
    User,
}

impl KnowledgeTagLayer {
    pub open spec fn store_text(self) -> Seq<char> {
        match self {
            KnowledgeTagLayer::Sn => "sn"@,
            KnowledgeTagLayer::Auto => "auto"@,
            KnowledgeTagLayer::User => "user"@,
        }
    }

    /// The layer's name in the store.
    pub fn as_store_str(self) -> (r: &'static str)
        ensures
            r@ == self.store_text(),
    {
        match self {
            KnowledgeTagLayer::Sn => "sn",
            KnowledgeTagLayer::Auto => "auto",
            KnowledgeTagLayer::User => "user",
        }
    }
}

/// A value as a tag: trimmed, in small letters.
pub open spec fn tag_of(value: Seq<char>) -> Seq<char> {
    lower(trim(value))
}

/// The tags with one more value, unless it is blank or a tag already.
pub open spec fn with_tag(tags: Seq<Seq<char>>, value: Seq<char>) -> Seq<Seq<char>> {
    let tag = tag_of(value);
    if tag.len() == 0 || tags.contains(tag) {
        tags
    } else {
        tags.push(tag)
    }
}

/// The tags with each of the values, one after the other.
pub open spec fn with_tags(tags: Seq<Seq<char>>, values: Seq<Seq<char>>) -> Seq<Seq<char>>
    decreases values.len(),
{
    if values.len() == 0 {
        tags
    } else {
        with_tag(with_tags(tags, values.drop_last()), values.last())
    }
}

/// Adds a value to the tags.
pub fn push_tag(tags: &mut Vec<String>, value: &str)
    ensures
        texts(final(tags)@) == with_tag(texts(old(tags)@), value@),
{
    let trimmed: String = trim_text(value);
    let tag: String = lower_text(trimmed.as_str());
    if tag.as_str().unicode_len() == 0 || list_has(tags, tag.as_str()) {
        return ;
    }
    proof {
        lemma_texts_push(tags@, tag);
    }
    tags.push(tag);
}

/// Adds each of the values to the tags.
pub fn push_tags(tags: &mut Vec<String>, values: &Vec<String>)
    ensures
        texts(final(tags)@) == with_tags(texts(old(tags)@), texts(values@)),
{
    let ghost start = texts(tags@);
    let ghost all = texts(values@);
    let mut i: usize = 0;
    assert(all.subrange(0, 0) =~= Seq::<Seq<char>>::empty());
    while i < values.len()
        invariant
            i <= values@.len(),
            all == texts(values@),
            texts(tags@) == with_tags(start, all.subrange(0, i as int)),
        decreases values@.len() - i,
    {
        push_tag(tags, values[i].as_str());
        proof {
            let longer = all.subrange(0, i + 1);
            assert(longer.drop_last() =~= all.subrange(0, i as int));
            assert(longer.last() == values@[i as int]@);
        }
        i += 1;
    }
    assert(all.subrange(0, i as int) =~= all);
}

/// Whether each tag is one, and none stands twice.
pub open spec fn are_tags(tags: Seq<Seq<char>>) -> bool {
    &&& tags.no_duplicates()
    &&& forall|i: int| 0 <= i < tags.len() ==> (#[trigger] tags[i]).len() > 0 && lower(tags[i]) == tags[i]
}

/// Tags stay tags, none twice, whatever values are added; the tags that were
/// there stay where they were.
pub proof fn tags_stay_tags(tags: Seq<Seq<char>>, values: Seq<Seq<char>>)
    requires
        are_tags(tags),
    ensures
        are_tags(with_tags(tags, values)),
        tags.len() <= with_tags(tags, values).len(),
        with_tags(tags, values).subrange(0, tags.len() as int) == tags,
        forall|i: int|
            0 <= i < values.len() && tag_of(#[trigger] values[i]).len() > 0 ==> with_tags(
                tags,
                values,
            ).contains(tag_of(values[i])),
    decreases values.len(),
{
    if values.len() > 0 {
        let front = values.drop_last();
        tags_stay_tags(tags, front);
        let before = with_tags(tags, front);
        let after = with_tags(tags, values);
        lemma_lower_idempotent(trim(values.last()));
        assert(after.subrange(0, tags.len() as int) =~= tags);
        if after.len() > before.len() {
            assert(after[before.len() as int] == tag_of(values.last()));
        }
        assert forall|t: Seq<char>| before.contains(t) implies after.contains(t) by {
            let k = choose|k: int| 0 <= k < before.len() && before[k] == t;
            assert(after[k] == t);
        }
        assert forall|i: int|
            0 <= i < values.len() && tag_of(#[trigger] values[i]).len()
                > 0 implies after.contains(tag_of(values[i])) by {
            if i < front.len() {
                assert(front[i] == values[i]);
                assert(before.contains(tag_of(front[i])));
            }
        }
    } else {
        assert(tags.subrange(0, tags.len() as int) =~= tags);
    }
}

/// The tags of a layer with one more, trimmed, unless it is blank or there
/// already.
pub open spec fn with_layer_tag(tags: Seq<Seq<char>>, value: Seq<char>) -> Seq<Seq<char>> {
    let tag = trim(value);
    if tag.len() == 0 || tags.contains(tag) {
        tags
    } else {
        tags.push(tag)
    }
}

/// The tags of a layer: trimmed, none blank, each where it first came.
pub open spec fn layer_tags(values: Seq<Seq<char>>) -> Seq<Seq<char>>
    decreases values.len(),
{
    if values.len() == 0 {
        Seq::empty()
    } else {
        with_layer_tag(layer_tags(values.drop_last()), values.last())
    }
}

pub fn normalize_tag_layer(tags: &Vec<String>) -> (r: Vec<String>)
    ensures
        texts(r@) == layer_tags(texts(tags@)),
{
    let ghost all = texts(tags@);
    let mut out: Vec<String> = Vec::new();
    let mut i: usize = 0;
    assert(texts(out@) =~= layer_tags(all.subrange(0, 0)));
    while i < tags.len()
        invariant
            i <= tags@.len(),
            all == texts(tags@),
            texts(out@) == layer_tags(all.subrange(0, i as int)),
        decreases tags@.len() - i,
    {
        let tag: String = trim_text(tags[i].as_str());
        proof {
            let longer = all.subrange(0, i + 1);
            assert(longer.drop_last() =~= all.subrange(0, i as int));
            assert(longer.last() == tags@[i as int]@);
        }
        if tag.as_str().unicode_len() != 0 && !list_has(&out, tag.as_str()) {
            proof {
                lemma_texts_push(out@, tag);
            }
            out.push(tag);
        }
        i += 1;
    }
    assert(all.subrange(0, i as int) =~= all);
    out
}

/// A layer in normal form stays as it is.
pub proof fn tag_layers_are_normal(values: Seq<Seq<char>>)
    ensures
        layer_tags(layer_tags(values)) == layer_tags(values),
        layer_tags(values).no_duplicates(),
{
    lemma_layer(values);
    lemma_layer_fixed(layer_tags(values));
}

proof fn lemma_layer(values: Seq<Seq<char>>)
    ensures
        layer_tags(values).no_duplicates(),
        forall|i: int|
            0 <= i < layer_tags(values).len() ==> (#[trigger] layer_tags(values)[i]).len() > 0
                && trim(layer_tags(values)[i]) == layer_tags(values)[i],
    decreases values.len(),
{
    if values.len() > 0 {
        lemma_layer(values.drop_last());
        crate::text::lemma_trim_idempotent(values.last());
    }
}

proof fn lemma_layer_fixed(tags: Seq<Seq<char>>)
    requires
        tags.no_duplicates(),
        forall|i: int|
            0 <= i < tags.len() ==> (#[trigger] tags[i]).len() > 0 && trim(tags[i]) == tags[i],
    ensures
        layer_tags(tags) == tags,
    decreases tags.len(),
{
    if tags.len() > 0 {
        let front = tags.drop_last();
        assert forall|i: int| 0 <= i < front.len() implies (#[trigger] front[i]).len() > 0 && trim(
            front[i],
        ) == front[i] by {
            assert(front[i] == tags[i]);
        }
        lemma_layer_fixed(front);
        assert(trim(tags[tags.len() - 1]) == tags[tags.len() - 1]);
        if front.contains(tags.last()) {
            let k = choose|k: int| 0 <= k < front.len() && front[k] == tags.last();
            assert(tags[k] == tags[tags.len() - 1]);
        }
        assert(front.push(tags.last()) =~= tags);
    }
}

/// The first tags of the three layers taken together, at most `limit` and at
/// least one where there is any.
pub open spec fn top_tags(
    sn: Seq<Seq<char>>,
    auto: Seq<Seq<char>>,
    user: Seq<Seq<char>>,
    limit: int,
) -> Seq<Seq<char>> {
    let all = with_tags(Seq::empty(), sn + auto + user);
    let most = if limit < 1 {
        1
    } else {
        limit
    };
    if all.len() <= most {
        all
    } else {
        all.subrange(0, most)
    }
}

pub fn merged_top_tags(
    sn_tags: &Vec<String>,
    auto_tags: &Vec<String>,
    user_tags: &Vec<String>,
    limit: usize,
) -> (r: Vec<String>)
    ensures
        texts(r@) == top_tags(texts(sn_tags@), texts(auto_tags@), texts(user_tags@), limit as int),
{
    let ghost s = texts(sn_tags@);
    let ghost a = texts(auto_tags@);
    let ghost u = texts(user_tags@);
    let mut out: Vec<String> = Vec::new();
    proof {
        crate::text::lemma_texts_empty();
        lemma_with_tags_joined(Seq::empty(), s, a);
        lemma_with_tags_joined(Seq::empty(), s + a, u);
    }
    push_tags(&mut out, sn_tags);
    push_tags(&mut out, auto_tags);
    push_tags(&mut out, user_tags);
    let most: usize = if limit < 1 {
        1
    } else {
        limit
    };
    if out.len() > most {
        let ghost full = texts(out@);
        out.truncate(most);
        assert(texts(out@) =~= full.subrange(0, most as int));
    }
    out
}

proof fn lemma_with_tags_joined(tags: Seq<Seq<char>>, a: Seq<Seq<char>>, b: Seq<Seq<char>>)
    ensures
        with_tags(tags, a + b) == with_tags(with_tags(tags, a), b),
    decreases b.len(),
{
    if b.len() == 0 {
        assert(a + b =~= a);
    } else {
        lemma_with_tags_joined(tags, a, b.drop_last());
        assert((a + b).drop_last() =~= a + b.drop_last());
        assert((a + b).last() == b.last());
    }
}

// --- tags that the provider holds ---

/// The fields of an article that hold tags.
pub const KB_SN_TAG_FIELDS: [&'static str; 4] = ["u_keywords", "keywords", "meta", "sys_tags"];

/// `serde_json::from_str` into a list of strings.
pub uninterp spec fn json_strings(text: Seq<char>) -> Option<Seq<Seq<char>>>;

pub open spec fn texts_of(o: Option<Vec<String>>) -> Option<Seq<Seq<char>>> {
    match o {
        Some(v) => Some(texts(v@)),
        None => None,
    }
}

/// `serde_json::from_str::<Vec<String>>`: the strings of a text that is a JSON
/// array of strings, else nothing. Which texts those are depends on the text
/// alone and is left to serde_json.
#[verifier::external_body]
pub(crate) fn parse_json_strings(text: &str) -> (r: Option<Vec<String>>)
    ensures
        texts_of(r) == json_strings(text@),
{
    serde_json::from_str::<Vec<String>>(text).ok()
}

/// The tags that one field adds: the strings of the list that it holds, else
/// what stands between its separators.
pub open spec fn field_values(raw: Seq<char>, list: Option<Seq<Seq<char>>>) -> Seq<Seq<char>> {
    match list {
        Some(values) => values,
        None => pieces(raw, Separator::TagEnd),
    }
}

/// Adds the tags of one field, given the list of strings that it holds.
pub fn push_field_tags(tags: &mut Vec<String>, raw: &str, list: Option<Vec<String>>)
    ensures
        texts(final(tags)@) == with_tags(
            texts(old(tags)@),
            field_values(raw@, texts_of(list)),
        ),
{
    match list {
        Some(values) => push_tags(tags, &values),
        None => {
            let values: Vec<String> = split_text(raw, Separator::TagEnd);
            push_tags(tags, &values)
        },
    }
}

/// The text of a field that may hold tags: its raw value, else what is shown.
pub open spec fn tag_text(row: RowView, field: Seq<char>) -> Option<Seq<char>> {
    match row.raw(field) {
        Some(t) => Some(t),
        None => row.shown(field),
    }
}

/// The tags of the first `n` tag fields of an article.
pub open spec fn provider_tags(row: RowView, n: int) -> Seq<Seq<char>>
    decreases n,
{
    if n <= 0 {
        Seq::empty()
    } else {
        let before = provider_tags(row, n - 1);
        match tag_text(row, KB_SN_TAG_FIELDS@[n - 1]@) {
            Some(raw) => with_tags(before, field_values(raw, json_strings(raw))),
            None => before,
        }
    }
}

/// The tags that the provider holds for an article.
pub fn derive_servicenow_tags(row: &Row) -> (r: Vec<String>)
    ensures
        texts(r@) == provider_tags(row@, 4),
{
    let mut tags: Vec<String> = Vec::new();
    let mut i: usize = 0;
    proof {
        crate::text::lemma_texts_empty();
    }
    while i < 4
        invariant
            i <= 4,
            texts(tags@) == provider_tags(row@, i as int),
        decreases 4 - i,
    {
        let field: &str = KB_SN_TAG_FIELDS[i];
        let held: Option<&str> = match row.get_raw(field) {
            Some(t) => Some(t),
            None => row.get_str(field),
        };
        if let Some(raw) = held {
            let list: Option<Vec<String>> = parse_json_strings(raw);
            push_field_tags(&mut tags, raw, list);
        }
        i += 1;
    }
    tags
}

// --- tags that a language model proposes ---

/// What is read of a JSON value that may hold tags: its items where it is an
/// array, and the items of the array under a key. An item is there as a text, or
/// as nothing where it is no text.
pub struct TagValue {
    pub array: Option<Vec<Option<String>>>,
    pub under_key: Option<Vec<Option<String>>>,
}

pub struct TagValueView {
    pub array: Option<Seq<Option<Seq<char>>>>,
    pub under_key: Option<Seq<Option<Seq<char>>>>,
}

pub open spec fn item_texts(o: Option<Vec<Option<String>>>) -> Option<Seq<Option<Seq<char>>>> {
    match o {
        Some(v) => Some(v@.map_values(|s: Option<String>| crate::text::text_of(s))),
        None => None,
    }
}

impl View for TagValue {
    type V = TagValueView;

    open spec fn view(&self) -> TagValueView {
        TagValueView { array: item_texts(self.array), under_key: item_texts(self.under_key) }
    }
}

/// `serde_json::from_str` into any value, read as one that may hold tags.
pub uninterp spec fn json_tag_value(text: Seq<char>, key: Seq<char>) -> Option<TagValueView>;

pub open spec fn tag_value_of(o: Option<TagValue>) -> Option<TagValueView> {
    match o {
        Some(v) => Some(v@),
        None => None,
    }
}

/// `serde_json::from_str::<serde_json::Value>`: the value that the text writes,
/// of which the items of an array are taken, and those of the array under the
/// key; nothing where the text writes no JSON. What it is depends on the two
/// texts alone and is left to serde_json.
#[verifier::external_body]
pub(crate) fn parse_json_tags(text: &str, key: &str) -> (r: Option<TagValue>)
    ensures
        tag_value_of(r) == json_tag_value(text@, key@),
{
    let items = |v: &Vec<serde_json::Value>| {
        v.iter().map(|item| item.as_str().map(String::from)).collect::<Vec<_>>()
    };
    let value = serde_json::from_str::<serde_json::Value>(text).ok()?;
    Some(
        TagValue {
            array: value.as_array().map(items),
            under_key: value.get(key).and_then(|v| v.as_array()).map(items),
        },
    )
}

/// What is read of a reply that may hold tags: the text under `response`, the
/// reply itself where it is a text, and what the reply holds as a value.
pub struct LlmTagReply {
    pub response: Option<String>,
    pub text: Option<String>,
    pub value: TagValue,
}

#[derive(Debug, Clone, PartialEq, Eq)]
pub struct LlmTagResponse {
    pub tags: Vec<String>,
}

/// The text of a reply that may itself be JSON.
pub open spec fn reply_text(reply: LlmTagReply) -> Seq<char> {
    match reply.response {
        Some(t) => t@,
        None => match reply.text {
            Some(t) => t@,
            None => Seq::empty(),
        },
    }
}

/// The items that are texts, in their order.
pub open spec fn present(items: Seq<Option<Seq<char>>>) -> Seq<Seq<char>>
    decreases items.len(),
{
    if items.len() == 0 {
        Seq::empty()
    } else {
        match items.last() {
            Some(t) => present(items.drop_last()).push(t),
            None => present(items.drop_last()),
        }
    }
}

/// The tags of a value: those of the array that it is, else of the array under
/// the key.
pub open spec fn value_tags(value: TagValueView) -> Option<Seq<Seq<char>>> {
    match value.array {
        Some(items) => Some(with_tags(Seq::empty(), present(items))),
        None => match value.under_key {
            Some(items) => Some(with_tags(Seq::empty(), present(items))),
            None => None,
        },
    }
}

pub open spec fn no_tag_array() -> Seq<char> {
    "KB LLM tag payload did not contain a tag array"@
}

fn collect_present(items: &Vec<Option<String>>) -> (r: Vec<String>)
    ensures
        texts(r@) == with_tags(
            Seq::empty(),
            present(items@.map_values(|s: Option<String>| crate::text::text_of(s))),
        ),
{
    let ghost all = items@.map_values(|s: Option<String>| crate::text::text_of(s));
    let mut tags: Vec<String> = Vec::new();
    let mut i: usize = 0;
    proof {
        crate::text::lemma_texts_empty();
        assert(all.subrange(0, 0) =~= Seq::<Option<Seq<char>>>::empty());
        assert(present(all.subrange(0, 0)) =~= Seq::<Seq<char>>::empty());
    }
    while i < items.len()
        invariant
            i <= items@.len(),
            all == items@.map_values(|s: Option<String>| crate::text::text_of(s)),
            texts(tags@) == with_tags(Seq::empty(), present(all.subrange(0, i as int))),
        decreases items@.len() - i,
    {
        proof {
            let longer = all.subrange(0, i + 1);
            assert(longer.drop_last() =~= all.subrange(0, i as int));
            assert(longer.last() == crate::text::text_of(items@[i as int]));
            let shorter = present(all.subrange(0, i as int));
            if let Some(t) = longer.last() {
                assert(shorter.push(t).drop_last() =~= shorter);
            }
        }
        if let Some(value) = &items[i] {
            push_tag(&mut tags, value.as_str());
        }
        i += 1;
    }
    assert(all.subrange(0, i as int) =~= all);
    tags
}

/// The tags of a reply, given the value that its text writes: that value counts
/// where the text is JSON, else the reply itself.
pub fn read_llm_tags(reply: LlmTagReply, inner: Option<TagValue>) -> (r: Result<
    LlmTagResponse,
    String,
>)
    ensures
        ({
            let value = match inner {
                Some(v) => v@,
                None => reply.value@,
            };
            match r {
                Ok(response) => value_tags(value) == Some(texts(response.tags@)),
                Err(e) => value_tags(value) is None && e@ == no_tag_array(),
            }
        }),
{
    let value: TagValue = match inner {
        Some(v) => v,
        None => reply.value,
    };
    let tags: Vec<String> = match &value.array {
        Some(items) => collect_present(items),
        None => match &value.under_key {
            Some(items) => collect_present(items),
            None => {
                return Err("KB LLM tag payload did not contain a tag array".to_owned());
            },
        },
    };
    Ok(LlmTagResponse { tags })
}

/// The tags that a reply of the language model proposes.
pub fn parse_llm_tag_response(reply: LlmTagReply) -> (r: Result<LlmTagResponse, String>)
    ensures
        ({
            let value = match json_tag_value(reply_text(reply), "tags"@) {
                Some(v) => v,
                None => reply.value@,
            };
            match r {
                Ok(response) => value_tags(value) == Some(texts(response.tags@)),
                Err(e) => value_tags(value) is None && e@ == no_tag_array(),
            }
        }),
{
    let inner: Option<TagValue> = match &reply.response {
        Some(t) => parse_json_tags(t.as_str(), "tags"),
        None => match &reply.text {
            Some(t) => parse_json_tags(t.as_str(), "tags"),
            None => {
                let nothing: String = String::new();
                assert(nothing@ =~= Seq::<char>::empty());
                parse_json_tags(nothing.as_str(), "tags")
            },
        },
    };
    read_llm_tags(reply, inner)
}

} // verus!
