//! Laws of reading and writing records: where a record is read from, what is dropped from
//! the cache, where choices are looked for, and what a write is told as.
use vstd::prelude::*;

use crate::choices::FieldChoice;
use crate::knowledge_sync::Moment;
use crate::listing::lemma_filter_keeps;
use crate::query::DisplayMode;
use crate::record_error::{RecordResolveError, ResolveErrorView};
use crate::record_resolver::{
    begin_resolution, check_scope, hinted_scope, route, RecordResolveInput, ResolveRoute,
    ResolveStart, SearchAction, SearchState,
};
use crate::record_service::{
    belongs, child_relation_for_parent_table, children_query, choice_sources, drops_target,
    first_with_choices, in_segment, is_exact_number, object_records, path_of, plan_record_read,
    plan_search, record_url, splits_at, CachedTarget, ChildRelation, ChoiceSourceView, RecordRead,
    SearchPlan,
};
use crate::record_types::{
    catalog_query_of, definition_query_of, prefix_query_of, reference_query_of, RecordType,
    TypeStage,
};
use crate::row::{Row, RowView};
use crate::selection::{group_selection, selects, Held};
use crate::tables::{record_table, sys_id_of, ResourceType};
use crate::text::{is_identifier, text_of, trim};
use crate::type_search::{asks, TypeRequest};
use crate::types::RecordRef;
use crate::vault::RecordRow;
use crate::write_result::{
    incident_write_error, refetch_fault, refetch_id, stated, tells_of, ChangeWriteResult, FreshRow,
    IncidentReply, IncidentWrite, IncidentWriteError, IncidentWriteStage,
};

verus! {

/// A record is shown under the address of the provider, by its table and its number.
pub proof fn records_have_an_address(base: Seq<char>, table: Seq<char>, number: Seq<char>)
    ensures
        ({
            let url = record_url(base, table, number);
            let uri = "/nav_to.do?uri="@;
            let by = ".do?sysparm_query=number="@;
            let at = base.len() + uri.len();
            &&& url.len() == at + table.len() + by.len() + number.len()
            &&& url.subrange(0, base.len() as int) == base
            &&& url.subrange(base.len() as int, at as int) == uri
            &&& url.subrange(at as int, (at + table.len()) as int) == table
            &&& url.subrange((at + table.len()) as int, (at + table.len() + by.len()) as int) == by
            &&& url.subrange((at + table.len() + by.len()) as int, url.len() as int) == number
        }),
{
    let url = record_url(base, table, number);
    let uri = "/nav_to.do?uri="@;
    let by = ".do?sysparm_query=number="@;
    let at = base.len() + uri.len();
    assert(url.subrange(0, base.len() as int) =~= base);
    assert(url.subrange(base.len() as int, at as int) =~= uri);
    assert(url.subrange(at as int, (at + table.len()) as int) =~= table);
    assert(url.subrange((at + table.len()) as int, (at + table.len() + by.len()) as int) =~= by);
    assert(url.subrange((at + table.len() + by.len()) as int, url.len() as int) =~= number);
}

/// The file of a record is the one that its last row names.
pub proof fn the_last_row_names_the_file(rows: Seq<RecordRow>, row: RecordRow, id: Seq<char>)
    ensures
        path_of(Seq::empty(), id) is None,
        path_of(rows.push(row), row.sys_id@) == text_of(row.file_path),
        id != row.sys_id@ ==> path_of(rows.push(row), id) == path_of(rows, id),
{
    assert(rows.push(row).drop_last() =~= rows);
}

/// A record in memory is given out where it is at most as old as allowed, and else asked
/// for anew; the store is looked at only where memory has none, by the same rule. What
/// neither knows is not read.
pub proof fn old_records_are_not_given_out(
    memory: Option<Moment>,
    stored: Option<Moment>,
    now: Moment,
    ttl_seconds: i64,
    r: RecordRead,
)
    requires
        call_ensures(plan_record_read, (memory, stored, now, ttl_seconds), r),
    ensures
        memory is None && stored is None <==> r == RecordRead::Nothing,
        memory is Some ==> {
            &&& r == RecordRead::Memory <==> now.value() - memory->0.value() <= ttl_seconds
                * 1_000_000_000
            &&& r != RecordRead::Memory ==> r == (RecordRead::Live { forget: true })
        },
        memory is None && stored is Some ==> {
            &&& r == RecordRead::Stored <==> now.value() - stored->0.value() <= ttl_seconds
                * 1_000_000_000
            &&& r != RecordRead::Stored ==> r == (RecordRead::Live { forget: false })
        },
{
}

/// Four kinds of objects can be dropped from the cache: articles, business applications,
/// servers, and the products of the service catalog, which are told by their table.
pub proof fn four_kinds_can_be_dropped(object: Seq<char>, kind: ResourceType, table: Seq<char>)
    ensures
        object_records(object) is Some <==> object == "knowledge"@ || object
            == "business_application"@ || object == "server"@ || object
            == "service_catalog_product"@,
        object_records("knowledge"@) is Some && (belongs(
            kind,
            table,
            object_records("knowledge"@)->0,
        ) <==> kind == ResourceType::Knowledge),
        object_records("business_application"@) is Some && (belongs(
            kind,
            table,
            object_records("business_application"@)->0,
        ) <==> kind == ResourceType::BusinessApplication),
        object_records("server"@) is Some && (belongs(kind, table, object_records("server"@)->0)
            <==> kind == ResourceType::Server),
        object_records("service_catalog_product"@) is Some && (belongs(
            kind,
            table,
            object_records("service_catalog_product"@)->0,
        ) <==> kind == ResourceType::Unknown && table == "sc_cat_item"@),
{
    reveal_strlit("knowledge");
    reveal_strlit("business_application");
    reveal_strlit("server");
    reveal_strlit("service_catalog_product");
    assert("knowledge"@.len() == 9);
    assert("business_application"@.len() == 20);
    assert("server"@.len() == 6);
    assert("service_catalog_product"@.len() == 23);
}

/// A cached record is dropped only for the object that it belongs to.
pub proof fn records_are_dropped_for_their_object(
    object: &str,
    target: Option<&CachedTarget>,
    r: Result<bool, String>,
)
    requires
        call_ensures(drops_target, (object, target), r),
    ensures
        r == Ok::<bool, String>(true) <==> target is Some && object_records(object@) is Some
            && belongs(target->0.resource_type, target->0.table_name@, object_records(object@)->0),
        r == Ok::<bool, String>(false) <==> target is None && object_records(object@) is Some,
        object_records(object@) is None ==> r is Err && r->Err_0@ == "unknown cache object `"@
            + object@ + "`"@,
{
}

/// A segment holds the records of its table, or all of them.
pub proof fn segments_hold_their_table(
    records: Seq<RecordRef>,
    table: Option<Seq<char>>,
    r: RecordRef,
)
    ensures
        records.filter(in_segment(table)).contains(r) <==> records.contains(r) && (table is None
            || r.table@ == table->0),
{
    lemma_filter_keeps(records, in_segment(table));
}

/// The children of a project or a demand are its resource plans; of other records what the
/// schema says.
pub proof fn projects_and_demands_have_resource_plans(
    table: &str,
    schema: Option<ChildRelation>,
    r: Option<ChildRelation>,
)
    requires
        call_ensures(child_relation_for_parent_table, (table, schema), r),
    ensures
        table@ == "pm_project"@ || table@ == "dmn_demand"@ ==> r is Some && r->0.table@
            == "resource_plan"@ && r->0.link_field@ == "task"@,
        table@ != "pm_project"@ && table@ != "dmn_demand"@ ==> r == schema,
{
}

/// The children of a record are those that name it as their parent, up to 500 of them; of
/// resource plans only some fields are read, and some of the record that they are for.
pub proof fn children_name_their_parent(
    relation: ChildRelation,
    parent: Seq<char>,
    plan_fields: Seq<Seq<char>>,
    held: Held,
)
    ensures
        ({
            let q = children_query(relation, parent, plan_fields);
            &&& q.table == relation.table@
            &&& selects(q, held) <==> held(relation.link_field@) == parent
            &&& q.limit == Some(500u32)
            &&& q.display == DisplayMode::Both
            &&& relation.table@ == "resource_plan"@ ==> q.fields == plan_fields && q.dot_walk
                == seq!["task.number"@, "task.short_description"@, "task.sys_class_name"@]
            &&& relation.table@ != "resource_plan"@ ==> q.fields.len() == 0 && q.dot_walk.len() == 0
        }),
{
    broadcast use group_selection;

    let q = children_query(relation, parent, plan_fields);
    if relation.table@ == "resource_plan"@ {
        assert(q.fields =~= plan_fields);
        assert(q.dot_walk.len() == 3);
        assert(q.dot_walk =~= seq![
            "task.number"@,
            "task.short_description"@,
            "task.sys_class_name"@,
        ]);
    }
}

/// Choices are looked for in the table itself, then in the interface where there is one,
/// then in the ancestors of the table in their order; those of a state at last among all
/// tasks, unless the table is that one.
pub proof fn choices_are_looked_for_in_turn(
    table: Seq<char>,
    field: Seq<char>,
    interface: bool,
    ancestors: Seq<Seq<char>>,
    i: int,
)
    requires
        0 <= i < ancestors.len(),
    ensures
        ({
            let s = choice_sources(table, field, interface, ancestors);
            let shift: int = if interface {
                2
            } else {
                1
            };
            let common = field == "state"@ && table != "task"@;
            &&& s[0] == ChoiceSourceView::Table(table)
            &&& interface ==> s[1] == ChoiceSourceView::Interface
            &&& s[shift + i] == ChoiceSourceView::Table(ancestors[i])
            &&& s.len() == shift + ancestors.len() + (if common {
                1int
            } else {
                0
            })
            &&& common ==> s[s.len() - 1] == ChoiceSourceView::Table("task"@)
        }),
{
}

/// The first source that has any choices is used; those before it have none.
pub proof fn the_first_choices_are_used(found: Seq<Vec<FieldChoice>>, from: int)
    requires
        0 <= from <= found.len(),
    ensures
        ({
            let r = first_with_choices(found, from);
            &&& r is None <==> forall|i: int|
                from <= i < found.len() ==> (#[trigger] found[i])@.len() == 0
            &&& r is Some ==> from <= r->0 < found.len() && found[r->0]@.len() > 0 && forall|i: int|
                from <= i < r->0 ==> (#[trigger] found[i])@.len() == 0
        }),
    decreases found.len() - from,
{
    if from < found.len() && found[from]@.len() == 0 {
        the_first_choices_are_used(found, from + 1);
    }
}

/// An exact number begins with a letter and ends with a digit, blanks aside, and no letter
/// comes behind a digit in it.
pub proof fn exact_numbers_are_letters_and_digits(text: Seq<char>, i: int, j: int)
    requires
        is_exact_number(text),
        0 <= i < j < trim(text).len(),
    ensures
        ({
            let t = trim(text);
            let letter = |c: char| 'a' <= c <= 'z' || 'A' <= c <= 'Z';
            let digit = |c: char| '0' <= c <= '9';
            &&& letter(t[0])
            &&& digit(t[t.len() - 1])
            &&& letter(t[i]) || digit(t[i])
            &&& digit(t[i]) ==> digit(t[j])
        }),
{
    let t = trim(text);
    let k = choose|k: int| 0 < k < t.len() && #[trigger] splits_at(t, k);
    assert(splits_at(t, k));
    assert(t[0] == t[0] && t[t.len() - 1] == t[t.len() - 1]);
}

/// Letters with digits behind them are an exact number.
pub proof fn letters_before_digits_are_exact_numbers(text: Seq<char>, k: int)
    requires
        0 < k < trim(text).len(),
        forall|i: int|
            0 <= i < k ==> 'a' <= #[trigger] trim(text)[i] <= 'z' || 'A' <= trim(text)[i] <= 'Z',
        forall|i: int| k <= i < trim(text).len() ==> '0' <= #[trigger] trim(text)[i] <= '9',
    ensures
        is_exact_number(text),
{
    assert(splits_at(trim(text), k));
}

/// An exact number is never answered from the local projection.
pub proof fn numbers_are_read_from_the_provider(is_number: bool, table_known: bool, r: SearchPlan)
    requires
        call_ensures(plan_search, (is_number, table_known), r),
    ensures
        r == SearchPlan::Local <==> !is_number,
        r == SearchPlan::Number <==> is_number && table_known,
        r == SearchPlan::Nothing <==> is_number && !table_known,
{
}

/// What fails before the provider accepted a write is told as its failure, and what fails
/// afterwards as one of this side.
pub proof fn faults_are_told_by_their_side(
    stage: IncidentWriteStage,
    detail: String,
    r: IncidentWriteError,
)
    requires
        call_ensures(incident_write_error, (stage, detail), r),
    ensures
        stage is Client || stage is Patch ==> r == IncidentWriteError::Upstream(detail),
        stage is Reread || stage is Concurrency || stage is Prune ==> r
            == IncidentWriteError::LocalCoherence(detail),
{
}

/// A field states its raw text or else the shown one, without blanks around it; a blank
/// text states nothing.
pub proof fn fields_state_their_text(row: RowView, field: Seq<char>)
    ensures
        ({
            let text = if row.raw(field) is Some {
                row.raw(field)
            } else {
                row.shown(field)
            };
            &&& stated(row, field) is Some ==> text is Some && stated(row, field)->0 == trim(
                text->0,
            )
            &&& text is None ==> stated(row, field) is None
            &&& text is Some && trim(text->0).len() > 0 ==> stated(row, field) is Some
            &&& text is Some && trim(text->0).len() == 0 ==> stated(row, field) is None
        }),
{
    let text = if row.raw(field) is Some {
        row.raw(field)
    } else {
        row.shown(field)
    };
    if text is Some {
        crate::text_laws::blank_texts_are_white(text->0);
    }
}

/// The result of a write holds the row that was read back, when it was changed, and how
/// often where the row says so.
pub proof fn results_hold_what_was_read_back(result: ChangeWriteResult, row: Row)
    requires
        tells_of(result, row),
    ensures
        result.row == row,
        stated(row@, "sys_updated_on"@) is Some,
        result.concurrency.sys_updated_on@ == stated(row@, "sys_updated_on"@)->0,
        stated(row@, "sys_mod_count"@) is None ==> result.concurrency.sys_mod_count is None,
        result.concurrency.sys_mod_count is Some ==> crate::number::number_of(
            stated(row@, "sys_mod_count"@)->0,
        ) == result.concurrency.sys_mod_count,
        stated(row@, "sys_mod_count"@) is Some && crate::number::number_of(
            stated(row@, "sys_mod_count"@)->0,
        ) is Some ==> result.concurrency.sys_mod_count is Some,
{
}

/// An incident is changed, then read back, then dropped from the cache, and then done; a
/// step that fails ends the write.
pub proof fn incidents_are_written_step_by_step(
    before: IncidentWrite,
    reply: IncidentReply,
    r: Result<IncidentWrite, IncidentWriteError>,
)
    requires
        before.awaits(reply),
        call_ensures(IncidentWrite::take, (before, reply), r),
    ensures
        before is Patch ==> {
            &&& reply is Patched
            &&& r is Ok <==> reply->Patched_0 is Ok
            &&& r is Ok ==> r->Ok_0 is Reread
            &&& r is Err ==> r->Err_0 is Upstream && r->Err_0->Upstream_0
                == reply->Patched_0->Err_0
        },
        before is Reread ==> {
            &&& reply is Fresh
            &&& r is Ok <==> reply->Fresh_0 is Ok && stated(
                reply->Fresh_0->Ok_0@,
                "sys_updated_on"@,
            ) is Some
            &&& r is Ok ==> r->Ok_0 is Prune && r->Ok_0->Prune_0.row == reply->Fresh_0->Ok_0
            &&& r is Err ==> r->Err_0 is LocalCoherence
        },
        before is Prune ==> {
            &&& reply is Pruned
            &&& r is Ok <==> reply->Pruned_0 is Ok
            &&& r is Ok ==> r->Ok_0 is Done && r->Ok_0->Done_0 == before->Prune_0
            &&& r is Err ==> r->Err_0 is LocalCoherence && r->Err_0->LocalCoherence_0
                == reply->Pruned_0->Err_0
        },
{
}

/// A written record is read again by its id, without blanks around it.
pub proof fn records_are_read_again_by_their_id(
    table: &str,
    expected: &str,
    r: Result<String, String>,
)
    requires
        call_ensures(refetch_id, (table, expected), r),
    ensures
        r is Ok <==> trim(expected@).len() > 0,
        r is Ok ==> r->Ok_0@ == trim(expected@),
        r is Err ==> r->Err_0@ == table@ + " write response did not include a sys_id to refetch"@,
{
}

/// A record that was read again is at fault where there is none, where it is of another
/// table, or where it is another record; a fault names the table first.
pub proof fn refetches_are_at_fault_for_a_reason(
    table: Seq<char>,
    expected: Seq<char>,
    written: Seq<char>,
    fresh: Option<FreshRow>,
)
    ensures
        refetch_fault(table, expected, written, fresh) is None <==> {
            &&& fresh is Some
            &&& record_table(fresh->0.table@) == table
            &&& fresh->0.sys_id@ == expected
        },
        refetch_fault(table, expected, written, fresh) is Some ==> refetch_fault(
            table,
            expected,
            written,
            fresh,
        )->0.subrange(0, table.len() as int) == table,
        fresh is None ==> refetch_fault(table, expected, written, fresh)->0 == table
            + " write response returned "@ + written + ", but fresh refetch by sys_id "@ + expected
            + " found no row"@,
{
    let fault = refetch_fault(table, expected, written, fresh);
    if fault is Some {
        assert(fault->0.subrange(0, table.len() as int) =~= table);
    }
}

/// A request without a record names a type, by its resource type or else its table. A
/// request for a record looks at the hint first, and else at the table that was given.
pub proof fn resolutions_begin_with_the_type(
    input: &RecordResolveInput,
    r: Result<ResolveStart, RecordResolveError>,
)
    requires
        call_ensures(begin_resolution, (input,), r),
    ensures
        r is Ok <==> input.refusal() is None,
        r is Err ==> r->Err_0@ == input.refusal()->0,
        r is Ok ==> ({
            let record = input.name is Some || input.number is Some || input.sys_id is Some;
            let hint = input.resource_type is Some && input.resource_type->0@ != "record"@;
            &&& r->Ok_0 is Types <==> !record
            &&& r->Ok_0 is Hint <==> record && hint
            &&& r->Ok_0 is Scoped <==> record && !hint
            &&& !record && input.resource_type is Some ==> r->Ok_0->selector@
                == input.resource_type->0@
            &&& !record && input.resource_type is None ==> r->Ok_0->selector@ == input.table->0@
            &&& record && hint ==> r->Ok_0->hint@ == input.resource_type->0@
            &&& record && !hint ==> text_of(r->Ok_0->scope) == text_of(input.table)
        }),
{
}

/// A hint leads to its table, with which a table that was given must agree.
pub proof fn hints_agree_with_the_table(
    table: &Option<String>,
    resolved: RecordType,
    r: Result<Option<String>, RecordResolveError>,
)
    requires
        call_ensures(hinted_scope, (table, resolved), r),
    ensures
        r is Ok <==> (*table is Some ==> (*table)->0@ == resolved.table@),
        r is Ok ==> r->Ok_0 == Some(resolved.table),
        r is Err ==> r->Err_0@ == ResolveErrorView::InvalidParams(
            "table does not match resolved resource_type"@,
        ),
{
}

/// A record is looked for by its name, by its number or by its id, whichever is given; a
/// number has no cursor, and an id is one.
pub proof fn records_are_looked_for_by_what_is_given(
    input: RecordResolveInput,
    r: Result<ResolveRoute, RecordResolveError>,
)
    requires
        input.selectors() == 1,
        call_ensures(route, (input,), r),
    ensures
        input.name is Some ==> r is Ok && r->Ok_0 is Name && r->Ok_0->name == input.name->0
            && r->Ok_0->Name_cursor == input.cursor,
        input.number is Some ==> {
            &&& r is Ok <==> input.cursor is None
            &&& r is Ok ==> r->Ok_0 is Number && r->Ok_0->number == input.number->0
            &&& r is Err ==> r->Err_0@ == ResolveErrorView::InvalidParams(
                "continue a numbered record document with its returned sys_id and cursor"@,
            )
        },
        input.sys_id is Some ==> {
            &&& r is Ok <==> sys_id_of(input.sys_id->0@) is Some
            &&& r is Ok ==> r->Ok_0 is SysId && Some(r->Ok_0->sys_id@) == sys_id_of(
                input.sys_id->0@,
            ) && r->Ok_0->SysId_cursor == input.cursor
        },
{
}

/// A scope is a table name.
pub proof fn scopes_are_table_names(table: &str, r: Result<(), RecordResolveError>)
    requires
        call_ensures(check_scope, (table,), r),
    ensures
        r is Ok <==> is_identifier(table@),
        r is Err ==> r->Err_0@ == ResolveErrorView::InvalidParams("invalid table identifier"@),
{
}

/// What a search does next is settled by what is left to spend, by the tables that wait and
/// by how far the catalog has been read.
pub proof fn searches_act_on_what_is_left(s: &SearchState, remaining: usize, r: SearchAction)
    requires
        call_ensures(SearchState::action, (s, remaining), r),
    ensures
        r is Stop <==> remaining == 0 || (s.pending@.len() == 0 && s.catalog_complete),
        r is Probe <==> remaining > 0 && s.pending@.len() > 0,
        r is Catalog <==> remaining > 0 && s.pending@.len() == 0 && !s.catalog_complete,
{
}

/// A discovery of types asks what its stage is about: the prefix, the catalog, the
/// references, or the definition of the next table that has none yet.
pub proof fn discoveries_ask_for_their_stage(
    selector: Seq<char>,
    stage: TypeStage,
    r: Result<TypeRequest, RecordResolveError>,
)
    requires
        asks(selector, stage, r),
    ensures
        stage is Prefix ==> r is Ok && r->Ok_0 is Prefix && r->Ok_0->prefix@ == stage->prefix@
            && r->Ok_0->query@ == prefix_query_of(stage->prefix@),
        stage is Catalog ==> r is Ok && r->Ok_0 is Ask && r->Ok_0->Ask_0@ == catalog_query_of(
            selector,
        ),
        stage is References ==> r is Ok && r->Ok_0 is Ask && r->Ok_0->Ask_0@ == reference_query_of(
            selector,
        ),
        stage is Done ==> r is Ok && r->Ok_0 is Done,
        stage is Define ==> ({
            let table = stage->tables.tables@[stage->found@.len() as int]@;
            &&& r is Ok <==> is_identifier(table)
            &&& r is Ok ==> r->Ok_0 is Ask && r->Ok_0->Ask_0@ == definition_query_of(table)
            &&& r is Err ==> r->Err_0@ == ResolveErrorView::Integrity(
                "metadata returned an invalid table"@,
            )
        }),
{
}

} // verus!
