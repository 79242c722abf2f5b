//! Laws of the stages of a lookup: what is asked in each, where its answers lead, and what
//! the caller is told at the end.
use vstd::prelude::*;

use crate::embedding_run::EmbeddingRun;
use crate::knowledge_sync::{knowledge_query, KnowledgeSyncMode};
use crate::record_error::{class_of, RecordResolveError, ResolveErrorView};
use crate::record_number::number_of;
use crate::record_name_resolver::name_refusal;
use crate::record_resolver::{RecordResolveInput, SearchEnd};
use crate::record_types::{
    catalog_next, catalog_type, definition_next, definition_of, literal_of, prefix_next,
    prefix_query_of, references_next, type_of_table, type_views, value_among, RecordType,
    TypeStage, TypeTables,
};
use crate::resolution::{
    after_row, discovery, name_entered, number_entered, record_entered, requests, search_told,
    settled, started, RecordResolution, Resolution, ResolveRequest, Resolver,
};
use crate::row::{Failure, PageView, Row, RowView};
use crate::selection::{group_selection, selects, Held};
use crate::sla::{TaskSla, TaskSlaStage};
use crate::sla_rows::{is_agreement, AgreementRow};
use crate::sync_plan::plan_queries;
use crate::text::{is_identifier, is_letter, lower, text_less, text_of, texts, trim, upper};
use crate::user::field_truth;

verus! {

/// Where the prefix metadata leads: the tables that it names are defined, in its order.
/// Where it names none, or fails, the first attempt goes on to the catalog and the last one
/// ends the discovery.
pub proof fn prefixes_lead_to_definitions(
    last: bool,
    answer: Result<TypeTables, RecordResolveError>,
    r: Result<TypeStage, RecordResolveError>,
)
    requires
        prefix_next(last, answer, r),
    ensures
        r is Err <==> last && answer is Err,
        r is Err ==> r->Err_0 == answer->Err_0,
        !last && (answer is Err || answer->Ok_0.tables@.len() == 0) ==> r->Ok_0 is Catalog,
        last && answer is Ok && answer->Ok_0.tables@.len() == 0 ==> r->Ok_0 is Done
            && r->Ok_0->types@.len() == 0,
        answer is Ok && answer->Ok_0.tables@.len() > 0 ==> {
            &&& r->Ok_0 is Define
            &&& texts(r->Ok_0->tables.tables@) == texts(answer->Ok_0.tables@)
            &&& r->Ok_0->tables.source@ == answer->Ok_0.source@
            &&& r->Ok_0->found@.len() == 0
        },
{
}

/// Where the catalog leads: up to twenty entries, which all belong to the selector, are the
/// types, one for each and in their order; without entries the references are asked.
pub proof fn catalog_entries_are_types(
    selector: Seq<char>,
    reply: Result<PageView, Failure>,
    r: Result<TypeStage, RecordResolveError>,
)
    requires
        catalog_next(selector, reply, r),
    ensures
        reply is Err ==> r is Err && r->Err_0@ == ResolveErrorView::Unavailable(
            "table catalog is unreadable"@,
        ),
        reply is Ok && (reply->Ok_0.partial || reply->Ok_0.rows.len() > 20) ==> r is Err
            && r->Err_0@ == ResolveErrorView::Unavailable(
            "table selector is too broad or metadata is incomplete"@,
        ),
        reply is Ok && !reply->Ok_0.partial && reply->Ok_0.rows.len() == 0 ==> r is Ok && r->Ok_0
            is References,
        r is Ok && reply->Ok_0.rows.len() > 0 ==> {
            &&& r->Ok_0 is Done
            &&& r->Ok_0->types@.len() == reply->Ok_0.rows.len()
            &&& forall|i: int|
                0 <= i < reply->Ok_0.rows.len() ==> (#[trigger] r->Ok_0->types@[i])@
                    == catalog_type(reply->Ok_0.rows[i])
        },
{
    if r is Ok && reply->Ok_0.rows.len() > 0 {
        let types = r->Ok_0->types@;
        let rows = reply->Ok_0.rows;
        assert(type_views(types).len() == rows.len());
        assert forall|i: int| 0 <= i < rows.len() implies (#[trigger] types[i])@ == catalog_type(
            rows[i],
        ) by {
            assert(type_views(types)[i] == types[i]@);
        }
    }
}

/// A catalog entry is a type under its name and its label.
pub proof fn entries_tell_their_type(row: RowView)
    ensures
        catalog_type(row).table == row.raw("name"@)->0,
        catalog_type(row).label == row.raw("label"@)->0,
        catalog_type(row).resource_type == type_of_table(row.raw("name"@)->0),
        catalog_type(row).source == "table_metadata"@,
{
}

/// Where the references lead: the tables that the fields point to are defined, each once.
/// Where they point to none, a selector of letters is tried as a prefix, in capitals and for
/// the last time.
pub proof fn references_lead_to_their_tables(
    selector: Seq<char>,
    reply: Result<PageView, Failure>,
    r: Result<TypeStage, RecordResolveError>,
    t: Seq<char>,
)
    requires
        references_next(selector, reply, r),
    ensures
        reply is Err ==> r is Err && r->Err_0@ == ResolveErrorView::Unavailable(
            "reference field metadata is unreadable"@,
        ),
        reply is Ok && (reply->Ok_0.partial || reply->Ok_0.rows.len() > 100) ==> r is Err
            && r->Err_0@ == ResolveErrorView::Unavailable("reference selector is too broad"@),
        r is Ok && r->Ok_0 is Define ==> ({
            let tables = texts(r->Ok_0->tables.tables@);
            &&& r->Ok_0->tables.source@ == "reference_metadata"@
            &&& r->Ok_0->found@.len() == 0
            &&& tables.contains(t) <==> t.len() > 0 && exists|i: int|
                0 <= i < reply->Ok_0.rows.len() && (#[trigger] reply->Ok_0.rows[i]).raw(
                    "reference"@,
                ) == Some(t)
            &&& forall|i: int, j: int|
                0 <= i < j < tables.len() ==> text_less(#[trigger] tables[i], #[trigger] tables[j])
        }),
        r is Ok && r->Ok_0 is Prefix ==> {
            &&& r->Ok_0->last
            &&& r->Ok_0->prefix@ == upper(selector)
            &&& forall|i: int| 0 <= i < selector.len() ==> is_letter(#[trigger] selector[i])
            &&& t.len() > 0 ==> forall|i: int|
                0 <= i < reply->Ok_0.rows.len() ==> (#[trigger] reply->Ok_0.rows[i]).raw(
                    "reference"@,
                ) != Some(t)
        },
        r is Ok ==> r->Ok_0 is Define || r->Ok_0 is Prefix || r->Ok_0 is Done,
{
    if r is Ok {
        let rows = reply->Ok_0.rows;
        let letters = |c: char| is_letter(c);
        let tables = choose|tables: Seq<Seq<char>>|
            #![trigger crate::listing::ascending(tables)]
            {
                &&& crate::listing::ascending(tables)
                &&& forall|t: Seq<char>| #[trigger]
                    tables.contains(t) <==> t.len() > 0 && value_among(
                        rows,
                        rows.len() as int,
                        "reference"@,
                        t,
                    )
                &&& if tables.len() == 0 && crate::text::all_chars(selector, letters) {
                    r->Ok_0 matches TypeStage::Prefix { prefix, last } && prefix@ == upper(selector)
                        && last
                } else {
                    crate::record_types::defining(r->Ok_0, tables, "reference_metadata"@)
                }
            };
        crate::table_laws::ascending_texts_come_in_order(tables);
        assert(tables.contains(t) <==> t.len() > 0 && value_among(
            rows,
            rows.len() as int,
            "reference"@,
            t,
        ));
        if r->Ok_0 is Prefix {
            assert forall|i: int| 0 <= i < selector.len() implies is_letter(
                #[trigger] selector[i],
            ) by {
                assert(letters(selector[i]));
            }
        }
    }
}

/// A definition joins those before it, in the order of the tables; the discovery is over
/// with the last one, and fails with any that does.
pub proof fn definitions_come_in_order(
    tables: TypeTables,
    found: Vec<RecordType>,
    reply: Result<PageView, Failure>,
    r: Result<TypeStage, RecordResolveError>,
)
    requires
        definition_next(tables, found, reply, r),
        found@.len() < tables.tables@.len(),
    ensures
        ({
            let d = definition_of(tables.tables@[found@.len() as int]@, tables.source@, reply);
            let over = found@.len() + 1 == tables.tables@.len();
            &&& r is Ok <==> d is Ok
            &&& r is Err ==> r->Err_0@ == d->Err_0
            &&& r is Ok ==> (r->Ok_0 is Done <==> over)
            &&& r is Ok && over ==> type_views(r->Ok_0->types@) == type_views(found@).push(d->Ok_0)
            &&& r is Ok && !over ==> r->Ok_0 is Define && r->Ok_0->tables == tables && type_views(
                r->Ok_0->found@,
            ) == type_views(found@).push(d->Ok_0)
        }),
{
}

/// A number that is looked up in a table asks that table alone; without one, the tables of
/// its prefix are asked for first. A cursor does not go with a number.
pub proof fn numbers_begin_with_their_prefix(
    number: String,
    scope: Option<Seq<char>>,
    has_cursor: bool,
    r: Result<Resolution, RecordResolveError>,
)
    requires
        number_entered(number, scope, has_cursor, r),
    ensures
        r is Ok <==> !has_cursor && number_of(number@) is Ok && (scope is Some ==> is_identifier(
            scope->0,
        )),
        has_cursor ==> r->Err_0@ == ResolveErrorView::InvalidParams(
            "continue a numbered record document with its returned sys_id and cursor"@,
        ),
        r is Ok && scope is Some ==> {
            &&& r->Ok_0 is Number
            &&& r->Ok_0->lookup@.tables == seq![scope->0]
            &&& r->Ok_0->lookup@.number == number_of(number@)->Ok_0
            &&& r->Ok_0->lookup@.next == 0
            &&& r->Ok_0->lookup@.found is None
            &&& text_of(r->Ok_0->scope) == scope
        },
        r is Ok && scope is None ==> {
            &&& r->Ok_0 is Prefix
            &&& r->Ok_0->Prefix_selector.number@ == number_of(number@)->Ok_0
        },
{
}

/// A row is asked for by its id where it is told, or in each of some tables; a number asks
/// for its prefix; and a record that was found asks to be written out.
pub proof fn stages_ask_for_what_they_need(
    stage: Resolution,
    r: Result<ResolveRequest, RecordResolveError>,
)
    requires
        requests(stage, r),
    ensures
        stage is Scoped ==> {
            &&& r is Ok && r->Ok_0 is Read
            &&& r->Ok_0->Read_table@ == stage->Scoped_table@
            &&& r->Ok_0->Read_sys_id@ == stage->Scoped_sys_id@
        },
        stage is Prefix ==> {
            &&& r is Ok && r->Ok_0 is Prefix
            &&& r->Ok_0->prefix@ == stage->Prefix_selector.prefix@
            &&& r->Ok_0->query@ == prefix_query_of(stage->Prefix_selector.prefix@)
        },
        stage is Number && stage->lookup@.class_read is Some ==> {
            &&& r is Ok && r->Ok_0 is Read
            &&& r->Ok_0->Read_table@ == stage->lookup@.class_read->0.table
            &&& r->Ok_0->Read_sys_id@ == stage->lookup@.class_read->0.sys_id
        },
        stage is Id && stage->Id_search.stage is Probe ==> {
            &&& r is Ok && r->Ok_0 is Probe
            &&& texts(r->Ok_0->tables@) == texts(stage->Id_search.stage->tables@)
            &&& r->Ok_0->Probe_sys_id@ == stage->Id_search.state.sys_id@
        },
        stage is Id && stage->Id_search.stage is Reread ==> {
            &&& r is Ok && r->Ok_0 is Read
            &&& r->Ok_0->Read_table@ == stage->Id_search.stage->Reread_class@
            &&& r->Ok_0->Read_sys_id@ == stage->Id_search.state.sys_id@
        },
        stage is Describe ==> r is Ok && r->Ok_0 is Describe && r->Ok_0->Describe_table@
            == stage->Describe_0.table@,
        stage is Done <==> r is Ok && r->Ok_0 is Done,
{
}

/// A row of the right class that was read in its scope is the record, under the id that the
/// row carries.
pub proof fn scoped_rows_are_records(
    stage: Resolution,
    reply: Result<Row, Failure>,
    r: Result<Resolution, RecordResolveError>,
)
    requires
        stage is Scoped,
        after_row(stage, reply, r),
    ensures
        r is Ok <==> {
            &&& reply is Ok
            &&& lower(reply->Ok_0.sys_id@) == lower(stage->Scoped_sys_id@)
            &&& class_of(reply->Ok_0@) is Ok
            &&& class_of(reply->Ok_0@)->Ok_0 == stage->Scoped_table@
        },
        r is Ok ==> {
            &&& r->Ok_0 is Describe
            &&& r->Ok_0->Describe_0.row == reply->Ok_0
            &&& r->Ok_0->Describe_0.sys_id@ == reply->Ok_0.sys_id@
            &&& r->Ok_0->Describe_0.table@ == stage->Scoped_table@
            &&& r->Ok_0->Describe_0.resource_type@ == type_of_table(stage->Scoped_table@)
        },
{
    crate::discovery_laws::scoped_reads_bring_their_class(
        crate::record_number::row_reply(reply),
        stage->Scoped_sys_id@,
        stage->Scoped_table@,
    );
}

/// A settled discovery of types tells all that were found. A hint must stand for one type,
/// with which a table that was given agrees. A number that no table knows is told as not
/// found, unless the metadata of its prefix could not be read; a record that a number led to
/// is told under its own id and class. None of these touches the sessions.
pub proof fn settled_lookups_tell_what_they_found(
    before: Resolver,
    after: Resolver,
    stage: Resolution,
    now: u64,
    r: Result<Resolution, RecordResolveError>,
)
    requires
        settled(before, after, stage, now, r),
    ensures
        stage is Types ==> {
            &&& after == before
            &&& r is Ok && r->Ok_0 is Done && r->Ok_0->Done_0 is TypeMatches
            &&& r->Ok_0->Done_0->types == stage->Types_0.stage->types
            &&& r->Ok_0->Done_0->complete
        },
        stage is Hint && stage->Hint_search.stage->types@.len() != 1 ==> r is Err && r->Err_0@
            is InvalidParams && after == before,
        stage is Number && stage->lookup.found is None ==> {
            &&& after == before
            &&& r is Ok <==> stage->lookup.mapping_error is None
            &&& r is Err ==> r->Err_0 == stage->lookup.mapping_error->0
            &&& r is Ok ==> r->Ok_0 is Done && r->Ok_0->Done_0
                == (RecordResolution::NumberNotFoundOrInaccessible { number: stage->Number_given })
        },
        stage is Number && stage->lookup.found is Some ==> ({
            let row = stage->lookup.found->0;
            let scope = text_of(stage->scope);
            &&& after == before
            &&& r is Ok <==> (scope is Some ==> scope->0 == row.table@)
            &&& r is Ok ==> {
                &&& r->Ok_0 is Describe
                &&& r->Ok_0->Describe_0.row == row
                &&& r->Ok_0->Describe_0.sys_id@ == row.sys_id@
                &&& r->Ok_0->Describe_0.table@ == class_of(row@)->Ok_0
            }
        }),
{
}

/// A lookup by name is refused with the reason of its selector and changes nothing then; else
/// it begins with two rounds and without a candidate, and touches no other session.
pub proof fn lookups_by_name_begin_with_their_search(
    before: Resolver,
    after: Resolver,
    name: Seq<char>,
    scope: Option<Seq<char>>,
    cursor: Option<Seq<char>>,
    now: u64,
    r: Result<Resolution, RecordResolveError>,
)
    requires
        name_entered(before, after, name, scope, cursor, now, r),
    ensures
        after.searches == before.searches,
        after.documents == before.documents,
        name_refusal(name, scope) is Some ==> r is Err && r->Err_0@ == name_refusal(name, scope)->0
            && after == before,
        r is Ok ==> {
            &&& r->Ok_0 is Name
            &&& r->Ok_0->Name_0.rounds == 2
            &&& r->Ok_0->Name_0.records@.len() == 0
        },
{
}

/// A lookup by id in a scope reads the record there, if the scope is a table name; without a
/// scope it searches over all tables, with 32 of them to ask.
pub proof fn lookups_by_id_read_their_scope(
    before: Resolver,
    after: Resolver,
    id: Seq<char>,
    scope: Option<Seq<char>>,
    cursor: Option<Seq<char>>,
    now: u64,
    r: Result<Resolution, RecordResolveError>,
)
    requires
        record_entered(before, after, id, scope, cursor, now, r),
    ensures
        scope is Some ==> {
            &&& after.searches == before.searches
            &&& r is Ok <==> is_identifier(scope->0)
            &&& r is Err ==> r->Err_0@ == ResolveErrorView::InvalidParams(
                "invalid table identifier"@,
            )
            &&& r is Ok ==> {
                &&& r->Ok_0 is Scoped
                &&& r->Ok_0->Scoped_sys_id@ == id
                &&& r->Ok_0->Scoped_table@ == scope->0
                &&& text_of(r->Ok_0->Scoped_cursor) == cursor
            }
        },
        scope is None && r is Ok ==> {
            &&& r->Ok_0 is Id
            &&& text_of(r->Ok_0->Id_cursor) == cursor
            &&& !(r->Ok_0->Id_search.stage is Probe) ==> r->Ok_0->Id_search.remaining == 32
        },
{
}

/// A refused request changes nothing, and neither does one that asks for types.
pub proof fn requests_for_types_keep_the_sessions(
    before: Resolver,
    after: Resolver,
    input: RecordResolveInput,
    now: u64,
    r: Result<Resolution, RecordResolveError>,
)
    requires
        started(before, after, input, now, r),
    ensures
        input.refusal() is Some ==> after == before && r is Err && r->Err_0@ == input.refusal()->0,
        input.refusal() is None && input.selectors() == 0 ==> ({
            let selector = if input.resource_type is Some {
                input.resource_type->0@
            } else {
                input.table->0@
            };
            &&& after == before
            &&& r is Ok <==> literal_of(selector) is Ok
            &&& r is Ok ==> r->Ok_0 is Types && r->Ok_0->Types_0.selector.selector@ == trim(
                selector,
            )
        }),
        input.refusal() is None && input.selectors() == 1 && input.resource_type is Some
            && input.resource_type->0@ != "record"@ ==> {
            &&& after == before
            &&& r is Ok <==> literal_of(input.resource_type->0@) is Ok
            &&& r is Ok ==> r->Ok_0 is Hint && r->Ok_0->input == input
                && r->Ok_0->Hint_search.selector.selector@ == trim(input.resource_type->0@)
        },
{
}

/// An agreement says what its row says: its name as shown, its stage by the label, and its
/// times, where they are filled in.
pub proof fn agreements_say_what_their_row_says(sla: TaskSla, item: AgreementRow)
    requires
        is_agreement(sla, item),
    ensures
        ({
            let row = item.row@;
            let stage = row.raw("stage"@);
            &&& text_of(sla.sla_name) == row.display("sla"@)
            &&& sla.stage is None <==> stage is None || stage->0.len() == 0
            &&& sla.stage == Some(TaskSlaStage::InProgress) <==> stage == Some("in_progress"@)
            &&& sla.stage == Some(TaskSlaStage::Paused) <==> stage == Some("paused"@)
            &&& sla.stage == Some(TaskSlaStage::Completed) <==> stage == Some("completed"@)
            &&& sla.stage == Some(TaskSlaStage::Cancelled) <==> stage == Some("cancelled"@)
            &&& sla.stage is Some && sla.stage->0 is Other ==> stage == Some(
                sla.stage->0->Other_0@,
            )
            &&& sla.active == field_truth(row, "active"@)
            &&& sla.has_breached == field_truth(row, "has_breached"@)
            &&& sla.business_elapsed_millionths == item.business_elapsed_millionths
            &&& sla.planned_end_time is Some <==> row.raw("planned_end_time"@) is Some && row.raw(
                "planned_end_time"@,
            )->0.len() > 0
            &&& sla.planned_end_time is Some ==> Some(sla.planned_end_time->0@) == row.raw(
                "planned_end_time"@,
            )
            &&& sla.actual_time_left is Some <==> row.raw("time_left"@) is Some && row.raw(
                "time_left"@,
            )->0.len() > 0
            &&& sla.actual_time_left is Some ==> Some(sla.actual_time_left->0@) == row.raw(
                "time_left"@,
            )
        }),
{
    reveal_strlit("in_progress");
    reveal_strlit("paused");
    reveal_strlit("completed");
    reveal_strlit("cancelled");
    assert("in_progress"@.len() == 11);
    assert("paused"@.len() == 6);
    assert("completed"@.len() == 9 && "cancelled"@.len() == 9);
    assert("completed"@[1] != "cancelled"@[1]);
}

/// An incremental pass asks for the articles behind the watermark: those that were changed
/// at the same time and have a greater id, and those that were changed later. A full one
/// asks for all of them.
pub proof fn passes_ask_behind_the_watermark(
    mode: KnowledgeSyncMode,
    bodies: bool,
    updated_at: Seq<char>,
    sys_id: Seq<char>,
    filter: Option<Seq<char>>,
    held: Held,
)
    ensures
        ({
            let p = plan_queries(mode, bodies, Some(updated_at), Some(sys_id), filter);
            let full = mode == KnowledgeSyncMode::Full;
            let all = knowledge_query(bodies || !full, filter);
            &&& p is Ok <==> all is Ok
            &&& p is Err ==> p->Err_0 == all->Err_0
            &&& p is Ok && full ==> p->Ok_0 == seq![all->Ok_0]
            &&& p is Ok && !full ==> {
                &&& p->Ok_0.len() == 2
                &&& selects(p->Ok_0[0], held) <==> selects(all->Ok_0, held) && held(
                    "sys_updated_on"@,
                ) == updated_at && text_less(sys_id, held("sys_id"@))
                &&& selects(p->Ok_0[1], held) <==> selects(all->Ok_0, held) && text_less(
                    updated_at,
                    held("sys_updated_on"@),
                )
            }
        }),
{
    broadcast use group_selection;

}

/// A batch holds the articles that wait, from the first one on, as many as fit.
pub proof fn batches_take_what_waits(run: EmbeddingRun, i: int)
    requires
        run.well_formed(),
        run.batch_size > 0,
    ensures
        ({
            let batch = run.next_batch();
            let left = run.pending@.len() - run.done;
            &&& batch.len() <= run.batch_size
            &&& batch.len() <= left
            &&& batch.len() == run.batch_size || batch.len() == left
            &&& 0 <= i < batch.len() ==> batch[i] == run.pending@[run.done + i]
        }),
{
}

/// The caller of a search that found nothing yet is told how far it came, and by which
/// cursor it goes on.
pub proof fn searches_tell_how_far_they_came(
    id: String,
    end: Result<SearchEnd, RecordResolveError>,
    r: Result<Resolution, RecordResolveError>,
)
    requires
        search_told(id, end, r),
    ensures
        r is Ok <==> end is Ok,
        r is Err ==> r->Err_0 == end->Err_0,
        end is Ok && end->Ok_0 is NotFound ==> {
            &&& r->Ok_0 is Done
            &&& r->Ok_0->Done_0 is NotFoundOrInaccessible
            &&& r->Ok_0->Done_0->NotFoundOrInaccessible_sys_id@ == id@
            &&& r->Ok_0->Done_0->NotFoundOrInaccessible_scanned_tables
                == end->Ok_0->NotFound_scanned_tables
            &&& r->Ok_0->Done_0->NotFoundOrInaccessible_unreadable_tables
                == end->Ok_0->NotFound_unreadable_tables
        },
        end is Ok && end->Ok_0 is Searching ==> {
            &&& r->Ok_0 is Done
            &&& r->Ok_0->Done_0 is Searching
            &&& r->Ok_0->Done_0->Searching_sys_id@ == id@
            &&& r->Ok_0->Done_0->cursor == end->Ok_0->cursor
            &&& r->Ok_0->Done_0->Searching_scanned_tables == end->Ok_0->Searching_scanned_tables
            &&& r->Ok_0->Done_0->Searching_unreadable_tables
                == end->Ok_0->Searching_unreadable_tables
        },
{
}

} // verus!
