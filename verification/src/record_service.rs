//! Reading records: from memory, from the local projection or from the provider.
use vstd::prelude::*;
use vstd::string::*;

use crate::choices::FieldChoice;
use crate::knowledge_sync::Moment;
use crate::listing::{lemma_filter_ends, lemma_filter_step};
use crate::query::{DisplayMode, Query, QueryView};
use crate::tables::ResourceType;
use crate::text::{
    chars_of, is_digit, is_letter, joined3, names_of, same, strings_of, text_of, text_of_ref, texts,
    trim, trim_text,
};
use crate::types::RecordRef;
use crate::user::{is_fresh, stable_reference_cache_is_fresh};
use crate::vault::{row_map, RecordRow};

verus! {

/// The provider that records are read from, and the records of the store.
pub struct RecordService {
    pub base_url: String,
    pub rows: Vec<RecordRow>,
}

pub open spec fn record_url(base: Seq<char>, table: Seq<char>, number: Seq<char>) -> Seq<char> {
    base + "/nav_to.do?uri="@ + table + ".do?sysparm_query=number="@ + number
}

/// The file that the store has for a record.
pub open spec fn path_of(rows: Seq<RecordRow>, id: Seq<char>) -> Option<Seq<char>> {
    if row_map(rows).dom().contains(id) {
        text_of(row_map(rows)[id].file_path)
    } else {
        None
    }
}

impl RecordService {
    /// Where a browser shows a record; `table` is the table of the number.
    pub fn browser_url(&self, number: &str, table: &str) -> (r: String)
        ensures
            r@ == record_url(self.base_url@, table@, number@),
    {
        let mut out: String = self.base_url.clone();
        out.append("/nav_to.do?uri=");
        out.append(table);
        out.append(".do?sysparm_query=number=");
        out.append(number);
        out
    }

    /// The file of a record in the vault.
    pub fn vault_relative_path_for_sys_id(&self, sys_id: &str) -> (r: Option<String>)
        ensures
            text_of(r) == path_of(self.rows@, sys_id@),
    {
        let mut n: usize = self.rows.len();
        assert(self.rows@.subrange(0, n as int) =~= self.rows@);
        while n > 0
            invariant
                n <= self.rows@.len(),
                path_of(self.rows@, sys_id@) == path_of(self.rows@.subrange(0, n as int), sys_id@),
            decreases n,
        {
            proof {
                assert(self.rows@.subrange(0, n as int).drop_last() =~= self.rows@.subrange(
                    0,
                    n - 1,
                ));
                assert(self.rows@.subrange(0, n as int).last() == self.rows@[n - 1]);
            }
            if same(self.rows[n - 1].sys_id.as_str(), sys_id) {
                return match &self.rows[n - 1].file_path {
                    Some(p) => Some(p.clone()),
                    None => None,
                };
            }
            n -= 1;
        }
        assert(self.rows@.subrange(0, 0) =~= Seq::<RecordRow>::empty());
        None
    }
}

// --- where a record is read from ---

#[derive(Debug, Clone, Copy, PartialEq, Eq, Structural)]
pub enum RecordRead {
    /// The record in memory is given out.
    Memory,
    /// The record of the store is given out, and kept in memory.
    Stored,
    /// There is no such record.
    Nothing,
    /// The provider is asked; `forget` says that the record in memory goes.
    Live { forget: bool },
}

/// Plans how a record is read: `memory` and `stored` say when the record in
/// memory and that of the store were read. A record that is too old is never
/// given out.
pub fn plan_record_read(
    memory: Option<Moment>,
    stored: Option<Moment>,
    now: Moment,
    ttl_seconds: i64,
) -> (r: RecordRead)
    ensures
        r == (match memory {
            Some(at) => if is_fresh(at, now, ttl_seconds) {
                RecordRead::Memory
            } else {
                RecordRead::Live { forget: true }
            },
            None => match stored {
                Some(at) => if is_fresh(at, now, ttl_seconds) {
                    RecordRead::Stored
                } else {
                    RecordRead::Live { forget: false }
                },
                None => RecordRead::Nothing,
            },
        }),
{
    match memory {
        Some(at) => if stable_reference_cache_is_fresh(at, now, ttl_seconds) {
            RecordRead::Memory
        } else {
            RecordRead::Live { forget: true }
        },
        None => match stored {
            Some(at) => if stable_reference_cache_is_fresh(at, now, ttl_seconds) {
                RecordRead::Stored
            } else {
                RecordRead::Live { forget: false }
            },
            None => RecordRead::Nothing,
        },
    }
}

// --- dropping what is cached ---

/// The records that a kind of object stands for: their type, and their table
/// where the type does not tell.
pub open spec fn object_records(object: Seq<char>) -> Option<(ResourceType, Option<Seq<char>>)> {
    if object == "knowledge"@ {
        Some((ResourceType::Knowledge, None))
    } else if object == "business_application"@ {
        Some((ResourceType::BusinessApplication, None))
    } else if object == "server"@ {
        Some((ResourceType::Server, None))
    } else if object == "service_catalog_product"@ {
        Some((ResourceType::Unknown, Some("sc_cat_item"@)))
    } else {
        None
    }
}

pub fn cache_object_resource_type(object: &str) -> (r: Result<
    (ResourceType, Option<&'static str>),
    String,
>)
    ensures
        match r {
            Ok((kind, table)) => object_records(object@) == Some((kind, text_of_ref(table))),
            Err(e) => object_records(object@) is None && e@ == "unknown cache object `"@ + object@
                + "`"@,
        },
{
    if same(object, "knowledge") {
        Ok((ResourceType::Knowledge, None))
    } else if same(object, "business_application") {
        Ok((ResourceType::BusinessApplication, None))
    } else if same(object, "server") {
        Ok((ResourceType::Server, None))
    } else if same(object, "service_catalog_product") {
        Ok((ResourceType::Unknown, Some("sc_cat_item")))
    } else {
        Err(joined3("unknown cache object `", object, "`"))
    }
}

/// Whether a record is one of those that an object stands for.
pub open spec fn belongs(
    kind: ResourceType,
    table: Seq<char>,
    of: (ResourceType, Option<Seq<char>>),
) -> bool {
    kind == of.0 && (of.1 is Some ==> table == of.1->0)
}

/// A record of the store: its type and its table.
pub struct CachedTarget {
    pub resource_type: ResourceType,
    pub table_name: String,
}

/// Whether a cached record is to be dropped: there is one, and it is of the
/// object. A record of another object is left alone, with an error.
pub fn drops_target(object: &str, target: Option<&CachedTarget>) -> (r: Result<bool, String>)
    ensures
        match object_records(object@) {
            None => r is Err && r->Err_0@ == "unknown cache object `"@ + object@ + "`"@,
            Some(of) => match target {
                None => r == Ok::<bool, String>(false),
                Some(t) => if belongs(t.resource_type, t.table_name@, of) {
                    r == Ok::<bool, String>(true)
                } else {
                    r is Err && r->Err_0@ == "cached target does not belong to object `"@ + object@
                        + "`"@
                },
            },
        },
{
    match cache_object_resource_type(object) {
        Err(e) => Err(e),
        Ok((kind, table)) => match target {
            None => Ok(false),
            Some(t) => {
                let right_table: bool = match table {
                    Some(name) => same(t.table_name.as_str(), name),
                    None => true,
                };
                if t.resource_type == kind && right_table {
                    Ok(true)
                } else {
                    Err(joined3("cached target does not belong to object `", object, "`"))
                }
            },
        },
    }
}

pub open spec fn in_segment(table: Option<Seq<char>>) -> spec_fn(RecordRef) -> bool {
    |record: RecordRef| table is Some ==> record.table@ == table->0
}

/// The records of a type that an object stands for: all of them, or those of its
/// table.
pub fn segment_records(records: Vec<RecordRef>, table: Option<&str>) -> (r: Vec<RecordRef>)
    ensures
        r@ == records@.filter(in_segment(text_of_ref(table))),
{
    let ghost all = records@;
    let ghost keep = in_segment(text_of_ref(table));
    let mut rest: Vec<RecordRef> = records;
    let mut out: Vec<RecordRef> = Vec::new();
    let ghost mut done: int = 0;
    proof {
        lemma_filter_ends(all, keep);
    }
    while rest.len() > 0
        invariant
            0 <= done <= all.len(),
            keep == in_segment(text_of_ref(table)),
            rest@ == all.subrange(done, all.len() as int),
            out@ == all.subrange(0, done).filter(keep),
        decreases rest@.len(),
    {
        let record: RecordRef = rest.remove(0);
        proof {
            assert(record == all[done]);
            lemma_filter_step(all, keep, done);
            done = done + 1;
            assert(rest@ =~= all.subrange(done, all.len() as int));
        }
        let wanted: bool = match table {
            Some(name) => same(record.table.as_str(), name),
            None => true,
        };
        if wanted {
            out.push(record);
        }
    }
    assert(all.subrange(0, done) =~= all);
    out
}

// --- the children of a record ---

/// The table of the children of a record, and the field that names their parent.
#[derive(Debug, Clone, PartialEq, Eq)]
pub struct ChildRelation {
    pub table: String,
    pub link_field: String,
}

pub open spec fn relation_is(r: ChildRelation, table: Seq<char>, field: Seq<char>) -> bool {
    r.table@ == table && r.link_field@ == field
}

/// The relation to the children: projects and demands have resource plans, other
/// tables what the provider's schema says.
pub fn child_relation_for_parent_table(table: &str, schema: Option<ChildRelation>) -> (r: Option<
    ChildRelation,
>)
    ensures
        if table@ == "pm_project"@ || table@ == "dmn_demand"@ {
            r is Some && relation_is(r->0, "resource_plan"@, "task"@)
        } else {
            r == schema
        },
{
    if same(table, "pm_project") || same(table, "dmn_demand") {
        Some(ChildRelation { table: "resource_plan".to_owned(), link_field: "task".to_owned() })
    } else {
        schema
    }
}

pub const RESOURCE_PLAN_WALK: [&'static str; 3] = [
    "task.number",
    "task.short_description",
    "task.sys_class_name",
];

/// The query for the children of a record. Of resource plans only the given
/// fields are wanted, and some of the record that they belong to.
pub open spec fn children_query(
    relation: ChildRelation,
    parent: Seq<char>,
    plan_fields: Seq<Seq<char>>,
) -> QueryView {
    let base = QueryView::of(relation.table@).equals(relation.link_field@, parent).display(
        DisplayMode::Both,
    ).limit(500);
    if relation.table@ == "resource_plan"@ {
        base.fields(plan_fields).walk(names_of(RESOURCE_PLAN_WALK@))
    } else {
        base
    }
}

pub fn plan_children(relation: &ChildRelation, parent_sys_id: &str, plan_fields: &Vec<String>) -> (r:
    Query)
    ensures
        r@ == children_query(*relation, parent_sys_id@, texts(plan_fields@)),
{
    let base: Query = Query::of(relation.table.as_str()).equals(
        relation.link_field.as_str(),
        parent_sys_id,
    ).display(DisplayMode::Both).limit(500);
    if same(relation.table.as_str(), "resource_plan") {
        base.fields(plan_fields).walk(&strings_of(&RESOURCE_PLAN_WALK))
    } else {
        base
    }
}

// --- the choices of a field ---

/// Where the choices of a field are looked for.
#[derive(Debug, Clone, PartialEq, Eq)]
pub enum ChoiceSource {
    /// The choice lists of a table.
    Table(String),
    /// What the user interface knows of the table.
    Interface,
}

pub enum ChoiceSourceView {
    Table(Seq<char>),
    Interface,
}

impl View for ChoiceSource {
    type V = ChoiceSourceView;

    open spec fn view(&self) -> ChoiceSourceView {
        match *self {
            ChoiceSource::Table(t) => ChoiceSourceView::Table(t@),
            ChoiceSource::Interface => ChoiceSourceView::Interface,
        }
    }
}

pub open spec fn source_views(list: Seq<ChoiceSource>) -> Seq<ChoiceSourceView> {
    list.map_values(|s: ChoiceSource| s@)
}

pub open spec fn ancestor_sources(ancestors: Seq<Seq<char>>) -> Seq<ChoiceSourceView> {
    ancestors.map_values(|t: Seq<char>| ChoiceSourceView::Table(t))
}

/// Where the choices of a field are looked for, one source after the other until
/// one has any: the table, the interface, the ancestors of the table, and for
/// states the table of all tasks.
pub open spec fn choice_sources(
    table: Seq<char>,
    field: Seq<char>,
    interface: bool,
    ancestors: Seq<Seq<char>>,
) -> Seq<ChoiceSourceView> {
    let own = seq![ChoiceSourceView::Table(table)];
    let shown = if interface {
        seq![ChoiceSourceView::Interface]
    } else {
        Seq::empty()
    };
    let common = if field == "state"@ && table != "task"@ {
        seq![ChoiceSourceView::Table("task"@)]
    } else {
        Seq::empty()
    };
    own + shown + ancestor_sources(ancestors) + common
}

pub fn plan_choice_sources(
    table: &str,
    field: &str,
    interface: bool,
    ancestors: &Vec<String>,
) -> (r: Vec<ChoiceSource>)
    ensures
        source_views(r@) == choice_sources(table@, field@, interface, texts(ancestors@)),
{
    let mut out: Vec<ChoiceSource> = Vec::new();
    out.push(ChoiceSource::Table(table.to_owned()));
    if interface {
        out.push(ChoiceSource::Interface);
    }
    let ghost head = source_views(out@);
    assert(head =~= seq![ChoiceSourceView::Table(table@)] + (if interface {
        seq![ChoiceSourceView::Interface]
    } else {
        Seq::empty()
    }));
    let ghost names = texts(ancestors@);
    let mut i: usize = 0;
    assert(source_views(out@) =~= head + ancestor_sources(names.subrange(0, 0)));
    while i < ancestors.len()
        invariant
            i <= ancestors@.len(),
            names == texts(ancestors@),
            source_views(out@) == head + ancestor_sources(names.subrange(0, i as int)),
        decreases ancestors@.len() - i,
    {
        let ghost before = source_views(out@);
        let item = ChoiceSource::Table(ancestors[i].clone());
        out.push(item);
        proof {
            assert(source_views(out@) =~= before.push(item@));
            assert(ancestor_sources(names.subrange(0, i + 1)) =~= ancestor_sources(
                names.subrange(0, i as int),
            ).push(item@));
            assert(source_views(out@) =~= head + ancestor_sources(names.subrange(0, i + 1)));
        }
        i += 1;
    }
    assert(names.subrange(0, i as int) =~= names);
    let ghost body = source_views(out@);
    if same(field, "state") && !same(table, "task") {
        out.push(ChoiceSource::Table("task".to_owned()));
        assert(source_views(out@) =~= body + seq![ChoiceSourceView::Table("task"@)]);
    } else {
        assert(source_views(out@) =~= body + Seq::<ChoiceSourceView>::empty());
    }
    assert(source_views(out@) =~= choice_sources(table@, field@, interface, texts(ancestors@)));
    out
}

/// The choices of the first source that has any.
pub open spec fn first_with_choices(found: Seq<Vec<FieldChoice>>, i: int) -> Option<int>
    decreases found.len() - i,
{
    if i >= found.len() {
        None
    } else if found[i]@.len() > 0 {
        Some(i)
    } else {
        first_with_choices(found, i + 1)
    }
}

/// Whether another source is to be asked: none so far had any choices.
pub fn wants_more_choices(found: &Vec<Vec<FieldChoice>>) -> (r: bool)
    ensures
        r == (first_with_choices(found@, 0) is None),
{
    let mut i: usize = 0;
    while i < found.len()
        invariant
            i <= found@.len(),
            first_with_choices(found@, 0) == first_with_choices(found@, i as int),
        decreases found@.len() - i,
    {
        if found[i].len() > 0 {
            return false;
        }
        i += 1;
    }
    true
}

// --- searching for a number ---

/// How a search is answered.
#[derive(Debug, Clone, Copy, PartialEq, Eq, Structural)]
pub enum SearchPlan {
    /// From the local projection.
    Local,
    /// With the record of that number, read from the provider.
    Number,
    /// With nothing: no table is known for the number.
    Nothing,
}

/// A number of a record and nothing else: letters in any case, and then digits.
pub open spec fn is_exact_number(text: Seq<char>) -> bool {
    let t = trim(text);
    exists|k: int| 0 < k < t.len() && #[trigger] splits_at(t, k)
}

/// Letters in front of a place, and digits from there on.
pub open spec fn splits_at(t: Seq<char>, k: int) -> bool {
    &&& forall|i: int| 0 <= i < k ==> is_letter(#[trigger] t[i])
    &&& forall|i: int| k <= i < t.len() ==> is_digit(#[trigger] t[i])
}

pub fn is_exact_record_number(text: &str) -> (r: bool)
    ensures
        r == is_exact_number(text@),
{
    let trimmed: String = trim_text(text);
    let v: Vec<char> = chars_of(trimmed.as_str());
    let mut k: usize = 0;
    while k < v.len() && (('a' <= v[k] && v[k] <= 'z') || ('A' <= v[k] && v[k] <= 'Z'))
        invariant
            k <= v@.len(),
            forall|i: int| 0 <= i < k ==> is_letter(#[trigger] v@[i]),
        decreases v@.len() - k,
    {
        k += 1;
    }
    let mut i: usize = k;
    while i < v.len() && '0' <= v[i] && v[i] <= '9'
        invariant
            k <= i <= v@.len(),
            forall|j: int| k <= j < i ==> is_digit(#[trigger] v@[j]),
        decreases v@.len() - i,
    {
        i += 1;
    }
    let r: bool = 0 < k && k < v.len() && i == v.len();
    proof {
        let t = trim(text@);
        if r {
            assert(splits_at(t, k as int));
        } else if is_exact_number(text@) {
            let at = choose|at: int| 0 < at < t.len() && #[trigger] splits_at(t, at);
            // The letters end where the digits begin.
            if k < at {
                assert(is_letter(t[k as int]));
            } else if at < k {
                assert(is_digit(t[at]) && is_letter(t[at]));
            }
            if i < t.len() {
                assert(is_digit(t[i as int]));
            }
        }
    }
    r
}

/// Plans a search: an exact number is read from the provider only, so that no
/// stale projection can answer for it.
pub fn plan_search(is_number: bool, table_known: bool) -> (r: SearchPlan)
    ensures
        r == (if !is_number {
            SearchPlan::Local
        } else if table_known {
            SearchPlan::Number
        } else {
            SearchPlan::Nothing
        }),
{
    if !is_number {
        SearchPlan::Local
    } else if table_known {
        SearchPlan::Number
    } else {
        SearchPlan::Nothing
    }
}

} // verus!
