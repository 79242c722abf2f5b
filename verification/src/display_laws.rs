//! Laws of the search of one table by name: its columns, its display field and its
//! ancestors, and how the rounds of a call follow each other.
use vstd::prelude::*;

use crate::display_field::{
    ancestor_path, ancestor_paths, ancestry_of, ancestry_query_of, chain_from,
    inherited_display_of, inherited_query_of, nearest_definition, of_table, own_display_of,
    own_query_of, DisplayFieldView,
};
use crate::listing::lemma_filter_keeps;
use crate::live_model::{
    data_model_status, is_column_of, is_set, ColumnMark, DataModelStatus, MarkedColumn,
};
use crate::name_search::{is_next_stage, NameStage};
use crate::record_error::ResolveErrorView;
use crate::record_name_resolver::{NameMatchView, NameSearchView};
use crate::name_table::{has_column, Column};
use crate::row::{Failure, PageView, RowView};
use crate::selection::{among, group_selection, selects, Held};
use crate::table_search::{
    display_in, field_list, fields_in, rows_in, search_in, ModelFailure, World,
};
use crate::text::{is_identifier, text_of};

verus! {

/// A mark on a column is set where it is true, as a truth value or as the text.
pub proof fn marks_are_set_when_true(mark: Option<ColumnMark>)
    ensures
        is_set(mark) <==> {
            ||| mark == Some(ColumnMark::Truth(true))
            ||| mark is Some && mark->0 is Text && mark->0->Text_0@ == seq!['t', 'r', 'u', 'e']
        },
{
    reveal_strlit("true");
    assert("true"@ =~= seq!['t', 'r', 'u', 'e']);
}

/// A column keeps its name, and is the display column where it is marked so.
pub proof fn columns_keep_their_names(column: Column, marked: MarkedColumn)
    requires
        is_column_of(column, marked),
    ensures
        column.name == marked.name,
        marked.display is None ==> !column.display,
        marked.display == Some(ColumnMark::Truth(true)) ==> column.display,
        marked.display == Some(ColumnMark::Truth(false)) ==> !column.display,
{
}

/// The columns of a table are available where there is a client and it can read them; they
/// come from live metadata then, and else there is a reason.
pub proof fn columns_are_available_or_there_is_a_reason(
    table: &str,
    configured: bool,
    readable: bool,
    r: DataModelStatus,
)
    requires
        call_ensures(data_model_status, (table, configured, readable), r),
    ensures
        r.table@ == table@,
        r.source is Some <==> configured && readable,
        r.reason is None <==> configured && readable,
        configured && readable ==> r.status@ == "available"@ && r.source->0@
            == "live_ui_metadata"@,
        !(configured && readable) ==> r.status@ == "unavailable"@,
        !configured ==> r.reason->0@ == "metadata_client_not_configured"@,
        configured && !readable ==> r.reason->0@ == "live_metadata_unreadable"@,
{
}

/// The own display field of a table is asked for among the columns that are marked as its
/// display; two are enough to see that there is not just one.
pub proof fn own_display_fields_are_asked_for(table: Seq<char>, held: Held)
    ensures
        ({
            let q = own_query_of(table);
            &&& q.table == "sys_dictionary"@
            &&& selects(q, held) <==> held("name"@) == table && held("display"@) == "true"@
            &&& q.fields == seq!["element"@]
            &&& q.limit == Some(2u32)
        }),
{
    broadcast use group_selection;

    assert(own_query_of(table).fields =~= seq!["element"@]);
}

/// One definition tells the field. None asks the ancestors. Several, a part of a page or a
/// failure leave the field unknown.
pub proof fn one_definition_tells_the_field(reply: Result<PageView, Failure>)
    ensures
        own_display_of(reply) is None <==> reply is Ok && !reply->Ok_0.partial
            && reply->Ok_0.rows.len() == 0,
        reply is Ok && !reply->Ok_0.partial && reply->Ok_0.rows.len() == 1 ==> {
            &&& own_display_of(reply)->0.field == reply->Ok_0.rows[0].raw("element"@)
            &&& own_display_of(reply)->0.complete <==> reply->Ok_0.rows[0].raw("element"@) is Some
        },
        reply is Err || reply->Ok_0.partial || reply->Ok_0.rows.len() > 1 ==> {
            &&& own_display_of(reply) is Some
            &&& own_display_of(reply)->0.field is None
            &&& !own_display_of(reply)->0.complete
        },
{
}

/// Each level up stands one step before the last in the path of an ancestor; sixteen
/// levels are read.
pub proof fn ancestors_are_one_step_apart(depth: nat, i: int)
    requires
        0 <= i < 16,
    ensures
        ancestor_path(0) == "name"@,
        ancestor_path(depth + 1) == "super_class."@ + ancestor_path(depth),
        ancestor_paths().len() == 16,
        ancestor_paths()[i] == ancestor_path((i + 1) as nat),
{
}

/// The ancestors of a table are asked for in its own catalog entry.
pub proof fn ancestors_are_asked_for(table: Seq<char>, held: Held)
    ensures
        ({
            let q = ancestry_query_of(table);
            &&& q.table == "sys_db_object"@
            &&& selects(q, held) <==> held("name"@) == table
            &&& q.fields == seq!["name"@, "super_class"@]
            &&& q.dot_walk == ancestor_paths()
            &&& q.limit == Some(2u32)
        }),
{
    broadcast use group_selection;

    assert(ancestry_query_of(table).fields =~= seq!["name"@, "super_class"@]);
    assert(ancestry_query_of(table).dot_walk =~= ancestor_paths());
}

/// A chain holds the ancestors level by level, each of them a table name, and ends at the
/// first level that is empty.
pub proof fn chains_go_up_level_by_level(
    row: RowView,
    table: Seq<char>,
    found: Seq<Seq<char>>,
    from: nat,
)
    requires
        from <= 16,
        found.len() == from,
        chain_from(row, table, found, from) is Some,
    ensures
        ({
            let chain = chain_from(row, table, found, from)->0;
            &&& from <= chain.len() < 16
            &&& chain.subrange(0, from as int) == found
            &&& forall|i: int|
                from <= i < chain.len() ==> row.raw(ancestor_path((i + 1) as nat)) == Some(
                    #[trigger] chain[i],
                ) && is_identifier(chain[i])
            &&& row.raw(ancestor_path(chain.len() + 1)) == Some(""@)
        }),
    decreases 16 - from,
{
    let p = row.raw(ancestor_path(from + 1))->0;
    if p != ""@ {
        let more = found.push(p);
        chains_go_up_level_by_level(row, table, more, from + 1);
        let chain = chain_from(row, table, found, from)->0;
        assert(chain.subrange(0, (from + 1) as int) == more);
        assert(chain[from as int] == chain.subrange(0, (from + 1) as int)[from as int]);
        assert(chain.subrange(0, from as int) =~= more.subrange(0, from as int)) by {
            assert forall|i: int| 0 <= i < from implies chain[i] == more[i] by {
                assert(chain[i] == chain.subrange(0, (from + 1) as int)[i]);
            }
        }
        assert(more.subrange(0, from as int) =~= found);
    } else {
        assert(found.subrange(0, from as int) =~= found);
    }
}

/// A table whose entry names no ancestor has no display field. An entry that is missing,
/// that is for another table or that comes in part leaves the field unknown; so does a chain
/// that cannot be followed to its end.
pub proof fn tables_without_ancestors_have_no_display_field(
    table: Seq<char>,
    reply: Result<PageView, Failure>,
)
    ensures
        ({
            let a = ancestry_of(table, reply);
            let entry = reply is Ok && !reply->Ok_0.partial && reply->Ok_0.rows.len() == 1
                && reply->Ok_0.rows[0].raw("name"@) == Some(table);
            let row = reply->Ok_0.rows[0];
            let chain = chain_from(row, table, Seq::empty(), 0);
            &&& !entry ==> a is Err && a->Err_0.field is None && !a->Err_0.complete
            &&& entry && row.raw("super_class"@) == Some(""@) ==> a is Err && a->Err_0.field is None
                && a->Err_0.complete
            &&& entry && row.raw("super_class"@) != Some(""@) ==> {
                &&& a is Ok <==> chain is Some && chain->0.len() > 0
                &&& a is Ok ==> a->Ok_0 == chain->0
                &&& a is Err ==> a->Err_0.field is None && !a->Err_0.complete
            }
        }),
{
}

/// The display fields of the ancestors are asked for among the columns that are marked so,
/// of any of them; seventeen rows are enough to see that there are too many.
pub proof fn inherited_display_fields_are_asked_for(parents: Seq<Seq<char>>, held: Held)
    requires
        parents.len() > 0,
    ensures
        ({
            let q = inherited_query_of(parents);
            &&& q.table == "sys_dictionary"@
            &&& selects(q, held) <==> held("display"@) == "true"@ && (if parents.len() == 1 {
                held("name"@) == parents[0]
            } else {
                among(held("name"@), parents)
            })
            &&& q.fields == seq!["name"@, "element"@]
            &&& q.limit == Some(17u32)
        }),
{
    broadcast use group_selection;

    assert(inherited_query_of(parents).fields =~= seq!["name"@, "element"@]);
}

/// The nearest ancestor that has a definition decides: those before it have none. One
/// definition tells the field, more leave it unknown, and where no ancestor has one the
/// table has no display field.
pub proof fn the_nearest_ancestor_decides(
    parents: Seq<Seq<char>>,
    rows: Seq<RowView>,
    from: int,
    at: int,
)
    requires
        0 <= from <= at <= parents.len(),
        forall|i: int, k: int|
            from <= i < at && 0 <= k < rows.len() ==> (#[trigger] rows[k]).raw("name"@) != Some(
                #[trigger] parents[i],
            ),
    ensures
        ({
            let d = nearest_definition(parents, rows, from);
            let own = rows.filter(of_table(parents[at]));
            &&& at == parents.len() ==> d.field is None && d.complete
            &&& at < parents.len() && own.len() == 1 ==> d.field == own[0].raw("element"@)
                && d.complete == own[0].raw("element"@) is Some
            &&& at < parents.len() && own.len() > 1 ==> d.field is None && !d.complete
            &&& forall|row: RowView| #[trigger]
                own.contains(row) <==> rows.contains(row) && row.raw("name"@) == Some(parents[at])
        }),
    decreases at - from,
{
    lemma_filter_keeps(rows, of_table(parents[at]));
    if from < at {
        let own = rows.filter(of_table(parents[from]));
        lemma_filter_keeps(rows, of_table(parents[from]));
        if own.len() > 0 {
            assert(own.contains(own[0]));
            let k = rows.index_of(own[0]);
            assert(rows[k].raw("name"@) == Some(parents[from]));
        }
        the_nearest_ancestor_decides(parents, rows, from + 1, at);
    }
}

/// Inherited definitions count where they came whole and are fewer than seventeen.
pub proof fn inherited_definitions_come_whole(
    parents: Seq<Seq<char>>,
    reply: Result<PageView, Failure>,
)
    ensures
        reply is Ok && !reply->Ok_0.partial && reply->Ok_0.rows.len() < 17
            ==> inherited_display_of(parents, reply) == nearest_definition(
            parents,
            reply->Ok_0.rows,
            0,
        ),
        reply is Err || reply->Ok_0.partial || reply->Ok_0.rows.len() >= 17 ==> {
            &&& inherited_display_of(parents, reply).field is None
            &&& !inherited_display_of(parents, reply).complete
        },
{
}

/// A table's own definition comes before that of its ancestors, and the ancestors are asked
/// only where it has none.
pub proof fn own_definitions_come_first(world: World, table: Seq<char>)
    ensures
        ({
            let own = own_display_of(world(own_query_of(table)));
            let up = ancestry_of(table, world(ancestry_query_of(table)));
            &&& own is Some ==> display_in(world, table) == own->0
            &&& own is None && up is Err ==> display_in(world, table) == up->Err_0
            &&& own is None && up is Ok ==> display_in(world, table) == inherited_display_of(
                up->Ok_0,
                world(inherited_query_of(up->Ok_0)),
            )
        }),
{
}

/// A table whose columns cannot be read is not searched.
pub proof fn columns_are_needed(
    world: World,
    f: ModelFailure,
    table: Seq<char>,
    name: Seq<char>,
    after: Option<Seq<char>>,
)
    ensures
        ({
            let r = search_in(world, Err(f), table, name, after);
            &&& r is Err
            &&& f == ModelFailure::NoClient ==> r->Err_0 == ResolveErrorView::Unavailable(
                "live metadata client is unavailable"@,
            )
            &&& f == ModelFailure::Unreadable ==> r->Err_0 == ResolveErrorView::Unavailable(
                "live table model is unreadable"@,
            )
            &&& f == ModelFailure::NoColumns ==> r->Err_0 == ResolveErrorView::Integrity(
                "table model omitted columns"@,
            )
        }),
{
}

/// A display field must be a column of the table. A table without any name field has no
/// candidates where its metadata is complete, and is not searched where it is not; any other
/// is searched by its name fields, together with the number where it has one.
pub proof fn display_fields_are_columns(
    world: World,
    table: Seq<char>,
    name: Seq<char>,
    after: Option<Seq<char>>,
    columns: Seq<Column>,
    d: DisplayFieldView,
)
    ensures
        ({
            let r = fields_in(world, table, name, after, columns, d);
            let fields = field_list(columns, d.field);
            let strange = d.field is Some && (!is_identifier(d.field->0) || !has_column(
                columns,
                d.field->0,
            ));
            &&& strange ==> r is Err && r->Err_0 == ResolveErrorView::Integrity(
                "display field is absent from the live table model"@,
            )
            &&& !strange && fields.len() == 0 && d.complete ==> r is Ok && r->Ok_0
                == (Seq::<NameMatchView>::empty(), None::<Seq<char>>, true)
            &&& !strange && fields.len() == 0 && !d.complete ==> r is Err && r->Err_0
                == ResolveErrorView::Unavailable("no readable name field definition"@)
            &&& !strange && fields.len() > 0 ==> r == rows_in(
                world,
                table,
                name,
                after,
                fields,
                has_column(columns, "number"@),
                d.complete,
            )
        }),
{
}

/// A call by name ends with its rounds, with its first candidates, or where nothing is left
/// to search. Else it reads on in the catalog where no table waits, or searches the table at
/// the head, from its model on, behind the row where it stopped.
pub proof fn calls_by_name_go_table_by_table(
    search: NameSearchView,
    rounds: int,
    records: int,
    stage: NameStage,
)
    requires
        is_next_stage(search, rounds, records, stage),
        rounds >= 0,
        records >= 0,
    ensures
        stage is End <==> rounds == 0 || records > 0 || (search.pending.len() == 0
            && search.catalog_complete),
        stage is Catalog <==> rounds > 0 && records == 0 && search.pending.len() == 0
            && !search.catalog_complete,
        stage is Table ==> {
            &&& stage->Table_0.table@ == search.pending[0]
            &&& stage->Table_0.name@ == search.name
            &&& text_of(stage->Table_0.after) == search.row_after
            &&& stage->Table_0.stage is Model
        },
{
}

} // verus!
