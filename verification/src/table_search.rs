//! Searching one table by name from end to end: its live model, its display
//! field, and the page of its rows.
use vstd::prelude::*;
use vstd::string::*;

use crate::display_field::{
    ancestry_of, ancestry_query, ancestry_query_of, inherited_display, inherited_display_of,
    inherited_query, inherited_query_of, own_display, own_display_of, own_query, own_query_of,
    read_ancestry, Ancestry, DisplayField, DisplayFieldView,
};
use crate::listing::{ascending, ascending_lists_are_determined};
use crate::name_table::{
    column_known, has_column, is_name_field, name_fields, name_page_of, name_query, name_query_of,
    read_name_page, without_name_fields, Column,
};
use crate::query::{Query, QueryView};
use crate::record_error::{integrity, unavailable, ResolveErrorView};
use crate::record_name_resolver::{match_views, NameMatchView, RecordNameMatch, TableOutcome};
use crate::record_types::reply_view;
use crate::row::{Failure, Page, PageView};
use crate::text::{is_identifier, text_of, texts};

verus! {

/// Why the live model of a table cannot be read.
#[derive(Debug, Clone, Copy, PartialEq, Eq, Structural)]
pub enum ModelFailure {
    /// There is nobody to ask.
    NoClient,
    Unreadable,
    /// The model has no columns.
    NoColumns,
}

pub open spec fn model_error(f: ModelFailure) -> ResolveErrorView {
    match f {
        ModelFailure::NoClient => ResolveErrorView::Unavailable(
            "live metadata client is unavailable"@,
        ),
        ModelFailure::Unreadable => ResolveErrorView::Unavailable(
            "live table model is unreadable"@,
        ),
        ModelFailure::NoColumns => ResolveErrorView::Integrity("table model omitted columns"@),
    }
}

// --- what a search comes to, where the answers to all questions are given ---

/// The candidates of a page, the row behind which to go on, and whether the
/// metadata was complete.
pub type Outcome = Result<(Seq<NameMatchView>, Option<Seq<char>>, bool), ResolveErrorView>;

/// How the provider answers each question.
pub type World = spec_fn(QueryView) -> Result<PageView, Failure>;

/// The display field that the ancestors of a table give it.
pub open spec fn inherited_in(world: World, table: Seq<char>) -> DisplayFieldView {
    match ancestry_of(table, world(ancestry_query_of(table))) {
        Err(known) => known,
        Ok(parents) => inherited_display_of(parents, world(inherited_query_of(parents))),
    }
}

/// The display field of a table: its own definition, or else that of its
/// ancestors.
pub open spec fn display_in(world: World, table: Seq<char>) -> DisplayFieldView {
    match own_display_of(world(own_query_of(table))) {
        Some(known) => known,
        None => inherited_in(world, table),
    }
}

pub open spec fn is_field_list(
    columns: Seq<Column>,
    display: Option<Seq<char>>,
    fields: Seq<Seq<char>>,
) -> bool {
    ascending(fields) && forall|f: Seq<char>| #[trigger]
        fields.contains(f) <==> is_name_field(columns, display, f)
}

/// The name fields in ascending order.
pub open spec fn field_list(columns: Seq<Column>, display: Option<Seq<char>>) -> Seq<Seq<char>> {
    choose|fields: Seq<Seq<char>>| is_field_list(columns, display, fields)
}

proof fn lemma_field_list(columns: Seq<Column>, display: Option<Seq<char>>, fields: Seq<Seq<char>>)
    requires
        is_field_list(columns, display, fields),
    ensures
        field_list(columns, display) == fields,
{
    let other = field_list(columns, display);
    assert(is_field_list(columns, display, other));
    ascending_lists_are_determined(fields, other);
}

/// What the page of rows says.
pub open spec fn rows_in(
    world: World,
    table: Seq<char>,
    name: Seq<char>,
    after: Option<Seq<char>>,
    fields: Seq<Seq<char>>,
    has_number: bool,
    complete: bool,
) -> Outcome {
    match name_page_of(
        world(name_query_of(table, fields, has_number, name, after)),
        table,
        name,
        fields,
        after,
    ) {
        Ok((found, next)) => Ok((found, next, complete)),
        Err(e) => Err(e),
    }
}

/// What the search comes to once the display field is settled. A display field
/// must be a column of the model; a table without any name field has no
/// candidates, if its metadata was complete.
pub open spec fn fields_in(
    world: World,
    table: Seq<char>,
    name: Seq<char>,
    after: Option<Seq<char>>,
    columns: Seq<Column>,
    display: DisplayFieldView,
) -> Outcome {
    if display.field is Some && !(is_identifier(display.field->0) && has_column(
        columns,
        display.field->0,
    )) {
        Err(ResolveErrorView::Integrity("display field is absent from the live table model"@))
    } else {
        let fields = field_list(columns, display.field);
        if fields.len() > 0 {
            rows_in(
                world,
                table,
                name,
                after,
                fields,
                has_column(columns, "number"@),
                display.complete,
            )
        } else if display.complete {
            Ok((Seq::empty(), None, true))
        } else {
            Err(ResolveErrorView::Unavailable("no readable name field definition"@))
        }
    }
}

/// What searching a table by name comes to.
pub open spec fn search_in(
    world: World,
    model: Result<Seq<Column>, ModelFailure>,
    table: Seq<char>,
    name: Seq<char>,
    after: Option<Seq<char>>,
) -> Outcome {
    match model {
        Err(f) => Err(model_error(f)),
        Ok(columns) => fields_in(world, table, name, after, columns, display_in(world, table)),
    }
}

pub open spec fn outcome_view(outcome: TableOutcome) -> Outcome {
    match outcome {
        TableOutcome::Found { matches, next, metadata_complete } => Ok(
            (match_views(matches@), text_of(next), metadata_complete),
        ),
        TableOutcome::Failed(e) => Err(e@),
        TableOutcome::TimedOut => Err(crate::record_name_resolver::name_timeout()),
    }
}

// --- the search, question by question ---

/// How far the search of a table is.
pub enum TableStage {
    /// The live model is asked for.
    Model,
    /// The table's own display field is asked for.
    Own { columns: Vec<Column> },
    /// Its ancestors are.
    Ancestors { columns: Vec<Column> },
    /// The display fields of the ancestors are.
    Inherited { columns: Vec<Column>, parents: Vec<String> },
    /// The rows are.
    Rows { fields: Vec<String>, has_number: bool, complete: bool },
    Done(TableOutcome),
}

pub struct TableSearch {
    pub table: String,
    pub name: String,
    pub after: Option<String>,
    pub stage: TableStage,
}

/// What the search of a table asks next.
pub enum TableRequest {
    /// The live model of the table.
    Model { table: String },
    Ask(Query),
    /// Nothing: it is over.
    Done,
}

impl TableSearch {
    /// The question of the stage, where it is one for the provider.
    pub open spec fn question(self) -> Option<QueryView> {
        match self.stage {
            TableStage::Own { columns } => Some(own_query_of(self.table@)),
            TableStage::Ancestors { columns } => Some(ancestry_query_of(self.table@)),
            TableStage::Inherited { columns, parents } => Some(
                inherited_query_of(texts(parents@)),
            ),
            TableStage::Rows { fields, has_number, complete } => Some(
                name_query_of(
                    self.table@,
                    texts(fields@),
                    has_number,
                    self.name@,
                    text_of(self.after),
                ),
            ),
            _ => None,
        }
    }

    /// What the search comes to from here on.
    pub open spec fn comes_to(
        self,
        world: World,
        model: Result<Seq<Column>, ModelFailure>,
    ) -> Outcome {
        let table = self.table@;
        let name = self.name@;
        let after = text_of(self.after);
        match self.stage {
            TableStage::Model => search_in(world, model, table, name, after),
            TableStage::Own { columns } => fields_in(
                world,
                table,
                name,
                after,
                columns@,
                display_in(world, table),
            ),
            TableStage::Ancestors { columns } => fields_in(
                world,
                table,
                name,
                after,
                columns@,
                inherited_in(world, table),
            ),
            TableStage::Inherited { columns, parents } => fields_in(
                world,
                table,
                name,
                after,
                columns@,
                inherited_display_of(texts(parents@), world(inherited_query_of(texts(parents@)))),
            ),
            TableStage::Rows { fields, has_number, complete } => rows_in(
                world,
                table,
                name,
                after,
                texts(fields@),
                has_number,
                complete,
            ),
            TableStage::Done(outcome) => outcome_view(outcome),
        }
    }

    /// How many questions are left at most.
    pub open spec fn questions_left(self) -> int {
        match self.stage {
            TableStage::Model => 5,
            TableStage::Own { columns } => 4,
            TableStage::Ancestors { columns } => 3,
            TableStage::Inherited { columns, parents } => 2,
            TableStage::Rows { fields, has_number, complete } => 1,
            TableStage::Done(outcome) => 0,
        }
    }

    pub open spec fn same_search(self, other: TableSearch) -> bool {
        self.table == other.table && self.name == other.name && self.after == other.after
    }

    pub fn start(table: String, name: String, after: Option<String>) -> (r: TableSearch)
        ensures
            r == (TableSearch { table, name, after, stage: TableStage::Model }),
            forall|world: World, model: Result<Seq<Column>, ModelFailure>| #[trigger]
                r.comes_to(world, model) == search_in(world, model, table@, name@, text_of(after)),
    {
        TableSearch { table, name, after, stage: TableStage::Model }
    }

    pub fn request(&self) -> (r: TableRequest)
        ensures
            match r {
                TableRequest::Model { table } => self.stage is Model && table@ == self.table@,
                TableRequest::Ask(q) => self.question() == Some(q@),
                TableRequest::Done => self.stage is Done,
            },
    {
        match &self.stage {
            TableStage::Model => TableRequest::Model { table: self.table.clone() },
            TableStage::Own { columns } => TableRequest::Ask(own_query(self.table.as_str())),
            TableStage::Ancestors { columns } => TableRequest::Ask(
                ancestry_query(self.table.as_str()),
            ),
            TableStage::Inherited { columns, parents } => TableRequest::Ask(
                inherited_query(parents),
            ),
            TableStage::Rows { fields, has_number, complete } => TableRequest::Ask(
                name_query(
                    self.table.as_str(),
                    fields,
                    *has_number,
                    self.name.as_str(),
                    &self.after,
                ),
            ),
            TableStage::Done(_) => TableRequest::Done,
        }
    }

    /// Takes in the live model.
    pub fn take_model(self, model: Result<Vec<Column>, ModelFailure>) -> (r: TableSearch)
        requires
            self.stage is Model,
        ensures
            r.same_search(self),
            r.questions_left() < self.questions_left(),
            forall|world: World| #[trigger]
                r.comes_to(world, model_view(model)) == self.comes_to(world, model_view(model)),
    {
        let stage: TableStage = match model {
            Ok(columns) => TableStage::Own { columns },
            Err(ModelFailure::NoClient) => TableStage::Done(
                TableOutcome::Failed(unavailable("live metadata client is unavailable")),
            ),
            Err(ModelFailure::Unreadable) => TableStage::Done(
                TableOutcome::Failed(unavailable("live table model is unreadable")),
            ),
            Err(ModelFailure::NoColumns) => TableStage::Done(
                TableOutcome::Failed(integrity("table model omitted columns")),
            ),
        };
        TableSearch { table: self.table, name: self.name, after: self.after, stage }
    }

    /// Takes in the answer to the question that was asked. Whatever else the
    /// provider says, the search comes to the same as before.
    pub fn take(self, reply: &Result<Page, Failure>) -> (r: TableSearch)
        requires
            self.question() is Some,
        ensures
            r.same_search(self),
            r.questions_left() < self.questions_left(),
            forall|world: World, model: Result<Seq<Column>, ModelFailure>|
                world(self.question()->0) == reply_view(*reply) ==> #[trigger] r.comes_to(
                    world,
                    model,
                ) == self.comes_to(world, model),
    {
        let table: String = self.table;
        let name: String = self.name;
        let after: Option<String> = self.after;
        let stage: TableStage = match self.stage {
            TableStage::Own { columns } => match own_display(reply) {
                Some(display) => settle(columns, display),
                None => TableStage::Ancestors { columns },
            },
            TableStage::Ancestors { columns } => match read_ancestry(table.as_str(), reply) {
                Ancestry::Known(display) => settle(columns, display),
                Ancestry::Ask { parents } => TableStage::Inherited { columns, parents },
            },
            TableStage::Inherited { columns, parents } => settle(
                columns,
                inherited_display(&parents, reply),
            ),
            TableStage::Rows { fields, has_number, complete } => match read_name_page(
                reply,
                table.as_str(),
                name.as_str(),
                &fields,
                &after,
            ) {
                Ok(page) => TableStage::Done(
                    TableOutcome::Found {
                        matches: page.matches,
                        next: page.next,
                        metadata_complete: complete,
                    },
                ),
                Err(e) => TableStage::Done(TableOutcome::Failed(e)),
            },
            other => other,
        };
        TableSearch { table, name, after, stage }
    }
}

pub open spec fn model_view(model: Result<Vec<Column>, ModelFailure>) -> Result<
    Seq<Column>,
    ModelFailure,
> {
    match model {
        Ok(columns) => Ok(columns@),
        Err(f) => Err(f),
    }
}

/// Goes on with a settled display field.
fn settle(columns: Vec<Column>, display: DisplayField) -> (r: TableStage)
    ensures
        r is Rows || r is Done,
        forall|world: World, model: Result<Seq<Column>, ModelFailure>, s: TableSearch|
            s.stage == r ==> #[trigger] s.comes_to(world, model) == fields_in(
                world,
                s.table@,
                s.name@,
                text_of(s.after),
                columns@,
                display@,
            ),
{
    let fields: Vec<String> = match name_fields(&columns, &display.field) {
        Ok(fields) => fields,
        Err(e) => return TableStage::Done(TableOutcome::Failed(e)),
    };
    proof {
        assert(is_field_list(columns@, display@.field, texts(fields@)));
        lemma_field_list(columns@, display@.field, texts(fields@));
    }
    if fields.is_empty() {
        match without_name_fields(display.complete) {
            Ok(()) => {
                let matches: Vec<RecordNameMatch> = Vec::new();
                assert(match_views(matches@) =~= Seq::empty());
                TableStage::Done(
                    TableOutcome::Found { matches, next: None, metadata_complete: true },
                )
            },
            Err(e) => TableStage::Done(TableOutcome::Failed(e)),
        }
    } else {
        let has_number: bool = column_known(&columns, "number");
        TableStage::Rows { fields, has_number, complete: display.complete }
    }
}

} // verus!
