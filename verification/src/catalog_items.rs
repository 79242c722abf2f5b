//! The items of the catalog, their variables, and when they are read from where.
use vstd::prelude::*;
use vstd::string::*;

use crate::article::{blank, is_blank};
use crate::knowledge_service::{still_fresh, CacheMode};
use crate::knowledge_sync::Moment;
use crate::listing::{
    ascending, insert_ascending, lemma_filter_ends, lemma_filter_step,
};
use crate::number::{number_of, parse_u64};
use crate::query::{DisplayMode, Operator, Query, QueryView};
use crate::row::{Row, RowView};
use crate::text::{
    lemma_texts_push, list_has, names_of, same, strings_of, text_of, texts, trim, trim_text,
};
use crate::user::{bool_field, field_truth};

verus! {

// --- what is asked of the provider ---

pub const CATALOG_ITEM_FIELDS: [&'static str; 5] = [
    "sys_id",
    "name",
    "short_description",
    "sys_class_name",
    "active",
];

pub const CATALOG_VARIABLE_FIELDS: [&'static str; 12] = [
    "sys_id",
    "name",
    "question_text",
    "type",
    "mandatory",
    "default_value",
    "reference",
    "lookup_table",
    "list_table",
    "max_length",
    "order",
    "active",
];

pub const VARIABLE_SET_FIELDS: [&'static str; 3] = ["sys_id", "variable_set", "order"];

pub const CHOICE_FIELDS: [&'static str; 5] = ["sys_id", "question", "value", "text", "order"];

/// A number of items as a search takes it: from one to fifty.
pub open spec fn clamped(limit: u32) -> u32 {
    if limit < 1 {
        1
    } else if limit > 50 {
        50
    } else {
        limit
    }
}

pub fn clamp_limit(limit: u32) -> (r: u32)
    ensures
        r == clamped(limit),
{
    if limit < 1 {
        1
    } else if limit > 50 {
        50
    } else {
        limit
    }
}

/// The query for a search among the items; without a text there is none.
pub fn catalog_search_query(text: &str, limit: u32) -> (r: Option<Query>)
    ensures
        match r {
            Some(q) => !is_blank(text@) && q@ == QueryView::of("sc_cat_item"@).contains(
                "name"@,
                trim(text@),
            ).when(true, "short_description"@, Operator::Contains, trim(text@)).equals(
                "active"@,
                "true"@,
            ).fields(names_of(CATALOG_ITEM_FIELDS@)).display(DisplayMode::Both).limit(
                clamped(limit),
            ),
            None => is_blank(text@),
        },
{
    let wanted: String = trim_text(text);
    if wanted.as_str().unicode_len() == 0 {
        return None;
    }
    Some(
        Query::of("sc_cat_item").contains("name", wanted.as_str()).when(
            true,
            "short_description",
            Operator::Contains,
            wanted.as_str(),
        ).equals("active", "true").fields(&strings_of(&CATALOG_ITEM_FIELDS)).display(
            DisplayMode::Both,
        ).limit(clamp_limit(limit)),
    )
}

/// The form that one item is read in by its id.
pub fn catalog_item_form() -> (r: Query)
    ensures
        r@ == QueryView::of("sc_cat_item"@).fields(names_of(CATALOG_ITEM_FIELDS@)).display(
            DisplayMode::Both,
        ),
{
    Query::of("sc_cat_item").fields(&strings_of(&CATALOG_ITEM_FIELDS)).display(DisplayMode::Both)
}

/// The query for variables whose field has one of the values.
#[verifier::opaque]
pub open spec fn variable_query(field: Seq<char>, values: Seq<Seq<char>>, active_only: bool) -> QueryView {
    let base = QueryView::of("item_option_new"@).fields(names_of(CATALOG_VARIABLE_FIELDS@)).display(
        DisplayMode::Both,
    ).ascending("order"@).limit(1000);
    let picked = if values.len() == 1 {
        base.equals(field, values[0])
    } else {
        base.in_list(field, values)
    };
    if active_only {
        picked.equals("active"@, "true"@)
    } else {
        picked
    }
}

/// The query for the variables of an item or of sets of variables. The active
/// ones are asked for first; where the provider refuses that, all are. Without
/// values there is nothing to ask.
pub fn plan_variables(field: &str, values: &Vec<String>, active_only: bool) -> (r: Option<Query>)
    ensures
        match r {
            Some(q) => values@.len() > 0 && q@ == variable_query(field@, texts(values@), active_only),
            None => values@.len() == 0,
        },
{
    if values.len() == 0 {
        return None;
    }
    proof {
        reveal(variable_query);
    }
    let base: Query = Query::of("item_option_new").fields(
        &strings_of(&CATALOG_VARIABLE_FIELDS),
    ).display(DisplayMode::Both).ascending("order").limit(1000);
    let picked: Query = if values.len() == 1 {
        base.equals(field, values[0].as_str())
    } else {
        base.in_list(field, values)
    };
    if active_only {
        Some(picked.equals("active", "true"))
    } else {
        Some(picked)
    }
}

/// The query for the sets of variables of an item.
pub fn variable_set_query(item_sys_id: &str) -> (r: Query)
    ensures
        r@ == QueryView::of("io_set_item"@).equals("sc_cat_item"@, item_sys_id@).fields(
            names_of(VARIABLE_SET_FIELDS@),
        ).display(DisplayMode::Both).ascending("order"@).limit(200),
{
    Query::of("io_set_item").equals("sc_cat_item", item_sys_id).fields(
        &strings_of(&VARIABLE_SET_FIELDS),
    ).display(DisplayMode::Both).ascending("order").limit(200)
}

pub open spec fn not_blank() -> spec_fn(Seq<char>) -> bool {
    |t: Seq<char>| !is_blank(t)
}

/// The query for the choices of variables; without any variable there is none.
pub fn choice_query(variable_sys_ids: &Vec<String>) -> (r: Option<Query>)
    ensures
        ({
            let ids = texts(variable_sys_ids@).filter(not_blank());
            match r {
                Some(q) => ids.len() > 0 && q@ == QueryView::of("question_choice"@).in_list(
                    "question"@,
                    ids,
                ).fields(names_of(CHOICE_FIELDS@)).display(DisplayMode::Both).ascending(
                    "order"@,
                ).limit(1000),
                None => ids.len() == 0,
            }
        }),
{
    let ghost all = texts(variable_sys_ids@);
    let ghost keep = not_blank();
    let mut ids: Vec<String> = Vec::new();
    let mut i: usize = 0;
    proof {
        lemma_filter_ends(all, keep);
        assert(texts(ids@) =~= all.subrange(0, 0).filter(keep));
    }
    while i < variable_sys_ids.len()
        invariant
            i <= variable_sys_ids@.len(),
            all == texts(variable_sys_ids@),
            keep == not_blank(),
            texts(ids@) == all.subrange(0, i as int).filter(keep),
        decreases variable_sys_ids@.len() - i,
    {
        proof {
            lemma_filter_step(all, keep, i as int);
        }
        if !blank(variable_sys_ids[i].as_str()) {
            let id: String = variable_sys_ids[i].clone();
            proof {
                lemma_texts_push(ids@, id);
            }
            ids.push(id);
        }
        i += 1;
    }
    assert(all.subrange(0, i as int) =~= all);
    if ids.len() == 0 {
        return None;
    }
    Some(
        Query::of("question_choice").in_list("question", &ids).fields(
            &strings_of(&CHOICE_FIELDS),
        ).display(DisplayMode::Both).ascending("order").limit(1000),
    )
}

// --- reading what comes back ---

/// The raw value of a field, else what is shown.
pub open spec fn raw_or_display(row: RowView, field: Seq<char>) -> Option<Seq<char>> {
    match row.raw(field) {
        Some(t) => Some(t),
        None => row.display(field),
    }
}

/// What is shown of a field, else its raw value.
pub open spec fn display_or_raw(row: RowView, field: Seq<char>) -> Option<Seq<char>> {
    match row.display(field) {
        Some(t) => Some(t),
        None => row.raw(field),
    }
}

pub fn record_field_raw_or_display(row: &Row, field: &str) -> (r: Option<String>)
    ensures
        text_of(r) == raw_or_display(row@, field@),
{
    match row.get_raw(field) {
        Some(t) => Some(t.to_owned()),
        None => match row.get_display(field) {
            Some(t) => Some(t.to_owned()),
            None => None,
        },
    }
}

pub fn record_field_display_or_raw(row: &Row, field: &str) -> (r: Option<String>)
    ensures
        text_of(r) == display_or_raw(row@, field@),
{
    match row.get_display(field) {
        Some(t) => Some(t.to_owned()),
        None => match row.get_raw(field) {
            Some(t) => Some(t.to_owned()),
            None => None,
        },
    }
}

/// A text that is not blank.
pub open spec fn unless_blank(o: Option<Seq<char>>) -> Option<Seq<char>> {
    match o {
        Some(t) => if is_blank(t) {
            None
        } else {
            Some(t)
        },
        None => None,
    }
}

fn drop_blank(o: Option<String>) -> (r: Option<String>)
    ensures
        text_of(r) == unless_blank(text_of(o)),
{
    match o {
        Some(t) => if blank(t.as_str()) {
            None
        } else {
            Some(t)
        },
        None => None,
    }
}

#[derive(Debug, Clone, PartialEq, Eq)]
pub struct CatalogChoice {
    pub value: String,
    pub label: String,
}

pub struct ChoiceView {
    pub value: Seq<char>,
    pub label: Seq<char>,
}

impl View for CatalogChoice {
    type V = ChoiceView;

    open spec fn view(&self) -> ChoiceView {
        ChoiceView { value: self.value@, label: self.label@ }
    }
}

pub open spec fn choice_views(list: Seq<CatalogChoice>) -> Seq<ChoiceView> {
    list.map_values(|c: CatalogChoice| c@)
}

/// The choice that a row is. Without a label it is shown by its value.
pub open spec fn choice_of(row: RowView) -> ChoiceView {
    let value = match raw_or_display(row, "value"@) {
        Some(t) => t,
        None => Seq::empty(),
    };
    ChoiceView {
        value,
        label: match display_or_raw(row, "text"@) {
            Some(t) => t,
            None => value,
        },
    }
}

pub open spec fn is_choice_for(id: Seq<char>) -> spec_fn(Row) -> bool {
    |row: Row| raw_or_display(row@, "question"@) == Some(id)
}

/// The choices of a variable, in their order.
pub open spec fn choices_for(rows: Seq<Row>, id: Seq<char>) -> Seq<ChoiceView> {
    rows.filter(is_choice_for(id)).map_values(|row: Row| choice_of(row@))
}

pub fn choices_of_variable(rows: &Vec<Row>, variable_sys_id: &str) -> (r: Vec<CatalogChoice>)
    ensures
        choice_views(r@) == choices_for(rows@, variable_sys_id@),
{
    let ghost all = rows@;
    let ghost keep = is_choice_for(variable_sys_id@);
    let mut out: Vec<CatalogChoice> = Vec::new();
    let mut i: usize = 0;
    proof {
        lemma_filter_ends(all, keep);
        assert(choice_views(out@) =~= choices_for(all.subrange(0, 0), variable_sys_id@));
    }
    while i < rows.len()
        invariant
            i <= rows@.len(),
            all == rows@,
            keep == is_choice_for(variable_sys_id@),
            choice_views(out@) == choices_for(all.subrange(0, i as int), variable_sys_id@),
        decreases rows@.len() - i,
    {
        let row: &Row = &rows[i];
        let ghost before = out@;
        let ghost kept = all.subrange(0, i as int).filter(keep);
        proof {
            lemma_filter_step(all, keep, i as int);
            assert(kept.push(*row).map_values(|row: Row| choice_of(row@)) =~= kept.map_values(
                |row: Row| choice_of(row@),
            ).push(choice_of(row@)));
        }
        let wanted: bool = match record_field_raw_or_display(row, "question") {
            Some(question) => same(question.as_str(), variable_sys_id),
            None => false,
        };
        if wanted {
            let value: String = match record_field_raw_or_display(row, "value") {
                Some(t) => t,
                None => String::new(),
            };
            assert(value@ =~= choice_of(row@).value);
            let label: String = match record_field_display_or_raw(row, "text") {
                Some(t) => t,
                None => value.clone(),
            };
            let item = CatalogChoice { value, label };
            out.push(item);
            assert(choice_views(out@) =~= choice_views(before).push(item@));
        }
        i += 1;
    }
    assert(all.subrange(0, i as int) =~= all);
    out
}

#[derive(Debug, Clone, PartialEq, Eq)]
pub struct CatalogVariable {
    pub sys_id: String,
    pub name: String,
    pub label: String,
    pub variable_type: String,
    pub mandatory: bool,
    pub default_value: Option<String>,
    pub reference_table: Option<String>,
    pub lookup_table: Option<String>,
    pub max_length: Option<u64>,
    pub choices: Vec<CatalogChoice>,
}

/// The name of a variable: that of its row, else its id.
pub open spec fn variable_name(row: RowView) -> Seq<char> {
    match raw_or_display(row, "name"@) {
        Some(t) => t,
        None => row.sys_id,
    }
}

/// Whether a variable is the one of a row, with its choices.
pub open spec fn is_variable_of(v: CatalogVariable, row: RowView, choice_rows: Seq<Row>) -> bool {
    &&& v.sys_id@ == row.sys_id
    &&& v.name@ == variable_name(row)
    &&& v.label@ == (match unless_blank(display_or_raw(row, "question_text"@)) {
        Some(t) => t,
        None => variable_name(row),
    })
    &&& v.variable_type@ == (match display_or_raw(row, "type"@) {
        Some(t) => t,
        None => Seq::empty(),
    })
    &&& v.mandatory == (field_truth(row, "mandatory"@) == Some(true))
    &&& text_of(v.default_value) == unless_blank(raw_or_display(row, "default_value"@))
    &&& text_of(v.reference_table) == unless_blank(raw_or_display(row, "reference"@))
    &&& text_of(v.lookup_table) == unless_blank(
        match raw_or_display(row, "lookup_table"@) {
            Some(t) => Some(t),
            None => raw_or_display(row, "list_table"@),
        },
    )
    &&& v.max_length == (match raw_or_display(row, "max_length"@) {
        Some(t) => number_of(t),
        None => None,
    })
    &&& choice_views(v.choices@) == choices_for(choice_rows, row.sys_id)
}

/// Reads a variable.
pub fn catalog_variable_from_record(row: &Row, choice_rows: &Vec<Row>) -> (r: CatalogVariable)
    ensures
        is_variable_of(r, row@, choice_rows@),
{
    let name: String = match record_field_raw_or_display(row, "name") {
        Some(t) => t,
        None => row.sys_id.clone(),
    };
    let label: String = match drop_blank(record_field_display_or_raw(row, "question_text")) {
        Some(t) => t,
        None => name.clone(),
    };
    let variable_type: String = match record_field_display_or_raw(row, "type") {
        Some(t) => t,
        None => String::new(),
    };
    assert(display_or_raw(row@, "type"@) is None ==> variable_type@ =~= Seq::<char>::empty());
    let mandatory: bool = match bool_field(row, "mandatory") {
        Some(b) => b,
        None => false,
    };
    let lookup: Option<String> = match record_field_raw_or_display(row, "lookup_table") {
        Some(t) => Some(t),
        None => record_field_raw_or_display(row, "list_table"),
    };
    let max_length: Option<u64> = match record_field_raw_or_display(row, "max_length") {
        Some(t) => parse_u64(t.as_str()),
        None => None,
    };
    CatalogVariable {
        sys_id: row.sys_id.clone(),
        name,
        label,
        variable_type,
        mandatory,
        default_value: drop_blank(record_field_raw_or_display(row, "default_value")),
        reference_table: drop_blank(record_field_raw_or_display(row, "reference")),
        lookup_table: drop_blank(lookup),
        max_length,
        choices: choices_of_variable(choice_rows, row.sys_id.as_str()),
    }
}

pub open spec fn record_listed(rows: Seq<Row>, id: Seq<char>) -> bool {
    exists|i: int| 0 <= i < rows.len() && (#[trigger] rows[i]).sys_id@ == id
}

/// The rows without those whose record came before.
pub open spec fn first_records(rows: Seq<Row>) -> Seq<Row>
    decreases rows.len(),
{
    if rows.len() == 0 {
        Seq::empty()
    } else {
        let front = first_records(rows.drop_last());
        if record_listed(rows.drop_last(), rows.last().sys_id@) {
            front
        } else {
            front.push(rows.last())
        }
    }
}

/// Drops the rows whose record came before.
pub fn distinct_records(rows: Vec<Row>) -> (r: Vec<Row>)
    ensures
        r@ == first_records(rows@),
{
    let ghost all = rows@;
    let mut rest: Vec<Row> = rows;
    let mut seen: Vec<String> = Vec::new();
    let mut out: Vec<Row> = Vec::new();
    let ghost mut done: int = 0;
    proof {
        crate::text::lemma_texts_empty();
        assert(all.subrange(0, all.len() as int) =~= all);
    }
    while rest.len() > 0
        invariant
            0 <= done <= all.len(),
            rest@ == all.subrange(done, all.len() as int),
            ascending(texts(seen@)),
            forall|t: Seq<char>| #[trigger]
                texts(seen@).contains(t) <==> record_listed(all.subrange(0, done), t),
            out@ == first_records(all.subrange(0, done)),
        decreases rest@.len(),
    {
        let row: Row = rest.remove(0);
        let ghost shorter = all.subrange(0, done);
        let ghost longer = all.subrange(0, done + 1);
        let known: bool = list_has(&seen, row.sys_id.as_str());
        insert_ascending(&mut seen, row.sys_id.as_str());
        proof {
            assert(row == all[done]);
            assert(longer.drop_last() =~= shorter);
            assert(longer.last() == row);
            assert forall|t: Seq<char>| #[trigger]
                record_listed(longer, t) <==> record_listed(shorter, t) || t == row.sys_id@ by {
                if record_listed(shorter, t) {
                    let k = choose|k: int|
                        0 <= k < shorter.len() && (#[trigger] shorter[k]).sys_id@ == t;
                    assert(longer[k].sys_id@ == t);
                }
                if t == row.sys_id@ {
                    assert(longer[done].sys_id@ == t);
                }
                if record_listed(longer, t) {
                    let k = choose|k: int|
                        0 <= k < longer.len() && (#[trigger] longer[k]).sys_id@ == t;
                    if k < done {
                        assert(shorter[k].sys_id@ == t);
                    }
                }
            }
            done = done + 1;
            assert(rest@ =~= all.subrange(done, all.len() as int));
        }
        if !known {
            out.push(row);
        }
    }
    assert(all.subrange(0, done) =~= all);
    out
}

/// The variables of an item: those of its rows, each once.
pub fn catalog_variables(rows: Vec<Row>, choice_rows: &Vec<Row>) -> (r: Vec<CatalogVariable>)
    ensures
        ({
            let kept = first_records(rows@);
            &&& r@.len() == kept.len()
            &&& forall|i: int|
                0 <= i < kept.len() ==> is_variable_of(#[trigger] r@[i], kept[i]@, choice_rows@)
        }),
{
    let kept: Vec<Row> = distinct_records(rows);
    let mut out: Vec<CatalogVariable> = Vec::new();
    let mut i: usize = 0;
    while i < kept.len()
        invariant
            i <= kept@.len(),
            out@.len() == i,
            forall|k: int|
                0 <= k < i ==> is_variable_of(#[trigger] out@[k], kept@[k]@, choice_rows@),
        decreases kept@.len() - i,
    {
        out.push(catalog_variable_from_record(&kept[i], choice_rows));
        i += 1;
    }
    out
}

/// The ids that the rows name, in their order.
pub open spec fn named_sets(rows: Seq<Row>) -> Seq<Seq<char>>
    decreases rows.len(),
{
    if rows.len() == 0 {
        Seq::empty()
    } else {
        match raw_or_display(rows.last()@, "variable_set"@) {
            Some(id) => named_sets(rows.drop_last()).push(id),
            None => named_sets(rows.drop_last()),
        }
    }
}

/// The sets of variables that an item uses.
pub fn catalog_variable_set_ids(rows: &Vec<Row>) -> (r: Vec<String>)
    ensures
        texts(r@) == named_sets(rows@),
{
    let mut out: Vec<String> = Vec::new();
    let mut i: usize = 0;
    proof {
        crate::text::lemma_texts_empty();
        assert(rows@.subrange(0, 0) =~= Seq::<Row>::empty());
    }
    while i < rows.len()
        invariant
            i <= rows@.len(),
            texts(out@) == named_sets(rows@.subrange(0, i as int)),
        decreases rows@.len() - i,
    {
        proof {
            let longer = rows@.subrange(0, i + 1);
            assert(longer.drop_last() =~= rows@.subrange(0, i as int));
            assert(longer.last() == rows@[i as int]);
        }
        if let Some(id) = record_field_raw_or_display(&rows[i], "variable_set") {
            proof {
                lemma_texts_push(out@, id);
            }
            out.push(id);
        }
        i += 1;
    }
    assert(rows@.subrange(0, i as int) =~= rows@);
    out
}

// --- where items are read from ---

/// How items are read.
#[derive(Debug, Clone, Copy, PartialEq, Eq, Structural)]
pub enum CatalogRead {
    /// From the cache, which was last refreshed then.
    Cached { last_refreshed_at: Moment },
    /// The cache has nothing, and nothing else may be asked.
    Missed,
    /// From the provider.
    Live,
}

/// Whether all items of the cache are fresh.
pub open spec fn all_fresh(refreshed: Seq<Moment>, ttl_seconds: Option<i64>, now: Moment) -> bool {
    ttl_seconds is Some && forall|i: int|
        0 <= i < refreshed.len() ==> still_fresh(#[trigger] refreshed[i], ttl_seconds->0, now)
}

/// The earliest of the times.
pub open spec fn is_earliest(at: Moment, refreshed: Seq<Moment>) -> bool {
    &&& refreshed.contains(at)
    &&& forall|i: int| 0 <= i < refreshed.len() ==> at.value() <= (#[trigger] refreshed[i]).value()
}

/// Plans how items are read: `refreshed` are the times at which those of the
/// cache were last read. The cache answers only where it must, or where all of
/// what it has is fresh; it then counts as old as its oldest item.
pub fn plan_catalog_read(
    mode: CacheMode,
    ttl_seconds: Option<i64>,
    refreshed: &Vec<Moment>,
    now: Moment,
) -> (r: CatalogRead)
    ensures
        match r {
            CatalogRead::Cached { last_refreshed_at } => mode != CacheMode::Live && refreshed@.len()
                > 0 && (mode == CacheMode::CacheOnly || all_fresh(refreshed@, ttl_seconds, now))
                && is_earliest(last_refreshed_at, refreshed@),
            CatalogRead::Missed => mode == CacheMode::CacheOnly && refreshed@.len() == 0,
            CatalogRead::Live => mode == CacheMode::Live || (mode == CacheMode::ReadThrough && (
            refreshed@.len() == 0 || !all_fresh(refreshed@, ttl_seconds, now))),
        },
{
    let cache_only: bool = match mode {
        CacheMode::Live => {
            return CatalogRead::Live;
        },
        CacheMode::ReadThrough => false,
        CacheMode::CacheOnly => true,
    };
    if refreshed.len() == 0 {
        return if cache_only {
            CatalogRead::Missed
        } else {
            CatalogRead::Live
        };
    }
    let mut oldest: Moment = refreshed[0];
    let mut oldest_value: i128 = (oldest.seconds as i128) * 1_000_000_000 + oldest.nanos as i128;
    let mut fresh: bool = ttl_seconds.is_some();
    let at: i128 = (now.seconds as i128) * 1_000_000_000 + now.nanos as i128;
    let ttl: i128 = match ttl_seconds {
        Some(t) => (t as i128) * 1_000_000_000,
        None => 0,
    };
    let mut i: usize = 0;
    while i < refreshed.len()
        invariant
            i <= refreshed@.len(),
            refreshed@.len() > 0,
            refreshed@.contains(oldest),
            oldest_value == oldest.value(),
            at == now.value(),
            ttl_seconds is Some ==> ttl == ttl_seconds->0 * 1_000_000_000,
            -9_223_372_036_854_775_808_000_000_000 <= ttl <= 9_223_372_036_854_775_808_000_000_000,
            forall|k: int|
                0 <= k < i ==> oldest.value() <= (#[trigger] refreshed@[k]).value(),
            fresh == (ttl_seconds is Some && forall|k: int|
                0 <= k < i ==> still_fresh(#[trigger] refreshed@[k], ttl_seconds->0, now)),
        decreases refreshed@.len() - i,
    {
        let m: Moment = refreshed[i];
        let value: i128 = (m.seconds as i128) * 1_000_000_000 + m.nanos as i128;
        if value < oldest_value {
            oldest = m;
            oldest_value = value;
            assert(refreshed@[i as int] == oldest);
        }
        if !(value + ttl > at) {
            proof {
                if ttl_seconds is Some {
                    assert(!still_fresh(refreshed@[i as int], ttl_seconds->0, now));
                }
            }
            fresh = false;
        }
        i += 1;
    }
    if cache_only || fresh {
        CatalogRead::Cached { last_refreshed_at: oldest }
    } else {
        CatalogRead::Live
    }
}

/// Whether what the provider gave is kept: the cache is in use, and there is
/// something to keep.
pub fn keeps_live_items(mode: CacheMode, items: usize) -> (r: bool)
    ensures
        r == (mode == CacheMode::ReadThrough && items > 0),
{
    match mode {
        CacheMode::ReadThrough => items > 0,
        CacheMode::Live => false,
        CacheMode::CacheOnly => false,
    }
}

} // verus!
