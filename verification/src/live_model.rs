//! What the provider tells of the columns of a table.
use vstd::prelude::*;
use vstd::string::*;

use crate::name_table::Column;
use crate::table_search::ModelFailure;
use crate::text::{same, text_of};

verus! {

/// The value of a mark on a column: a truth value, a text, or anything else.
#[derive(Debug, Clone, PartialEq, Eq)]
pub enum ColumnMark {
    Truth(bool),
    Text(String),
    Other,
}

/// Whether a mark is set.
pub open spec fn is_set(mark: Option<ColumnMark>) -> bool {
    match mark {
        Some(ColumnMark::Truth(b)) => b,
        Some(ColumnMark::Text(t)) => t@ == "true"@,
        _ => false,
    }
}

fn mark_is_set(mark: &Option<ColumnMark>) -> (r: bool)
    ensures
        r == is_set(*mark),
{
    match mark {
        Some(ColumnMark::Truth(b)) => *b,
        Some(ColumnMark::Text(t)) => same(t.as_str(), "true"),
        _ => false,
    }
}

/// A column with the mark that it is the display value.
pub struct MarkedColumn {
    pub name: String,
    pub display: Option<ColumnMark>,
}

/// What came of asking for the columns of a table.
pub enum ModelReply {
    /// There is nobody to ask.
    NoClient,
    Failed,
    /// What came back lists no columns.
    Shapeless,
    Columns(Vec<MarkedColumn>),
}

pub open spec fn is_column_of(column: Column, marked: MarkedColumn) -> bool {
    column.name == marked.name && column.display == is_set(marked.display)
}

/// The columns of a table, or why they cannot be read.
pub fn read_model(reply: ModelReply) -> (r: Result<Vec<Column>, ModelFailure>)
    ensures
        match reply {
            ModelReply::NoClient => r == Err::<Vec<Column>, ModelFailure>(ModelFailure::NoClient),
            ModelReply::Failed => r == Err::<Vec<Column>, ModelFailure>(ModelFailure::Unreadable),
            ModelReply::Shapeless => r == Err::<Vec<Column>, ModelFailure>(
                ModelFailure::NoColumns,
            ),
            ModelReply::Columns(marked) => {
                &&& r is Ok
                &&& r->Ok_0@.len() == marked@.len()
                &&& forall|i: int|
                    0 <= i < marked@.len() ==> is_column_of(#[trigger] r->Ok_0@[i], marked@[i])
            },
        },
{
    let mut rest: Vec<MarkedColumn> = match reply {
        ModelReply::NoClient => {
            return Err(ModelFailure::NoClient);
        },
        ModelReply::Failed => {
            return Err(ModelFailure::Unreadable);
        },
        ModelReply::Shapeless => {
            return Err(ModelFailure::NoColumns);
        },
        ModelReply::Columns(marked) => marked,
    };
    let ghost all = rest@;
    let mut out: Vec<Column> = Vec::new();
    assert(all.subrange(0, all.len() as int) =~= all);
    while rest.len() > 0
        invariant
            out@.len() + rest@.len() == all.len(),
            rest@ == all.subrange(out@.len() as int, all.len() as int),
            forall|i: int| 0 <= i < out@.len() ==> is_column_of(#[trigger] out@[i], all[i]),
        decreases rest@.len(),
    {
        let marked: MarkedColumn = rest.remove(0);
        assert(marked == all[out@.len() as int]);
        let display: bool = mark_is_set(&marked.display);
        out.push(Column { name: marked.name, display });
        assert(rest@ =~= all.subrange(out@.len() as int, all.len() as int));
    }
    Ok(out)
}

/// What is told of the columns beside a record: where they come from, or why there
/// are none.
#[derive(Debug, Clone, PartialEq, Eq)]
pub struct DataModelStatus {
    pub status: String,
    pub table: String,
    pub source: Option<String>,
    pub reason: Option<String>,
}

/// The standing of the columns of a table: whether there is anybody to ask, and
/// whether the columns could be read.
pub fn data_model_status(table: &str, configured: bool, readable: bool) -> (r: DataModelStatus)
    ensures
        r.table@ == table@,
        r.status@ == (if configured && readable {
            "available"@
        } else {
            "unavailable"@
        }),
        text_of(r.source) == (if configured && readable {
            Some("live_ui_metadata"@)
        } else {
            None
        }),
        text_of(r.reason) == (if !configured {
            Some("metadata_client_not_configured"@)
        } else if !readable {
            Some("live_metadata_unreadable"@)
        } else {
            None
        }),
{
    if !configured {
        DataModelStatus {
            status: "unavailable".to_owned(),
            table: table.to_owned(),
            source: None,
            reason: Some("metadata_client_not_configured".to_owned()),
        }
    } else if !readable {
        DataModelStatus {
            status: "unavailable".to_owned(),
            table: table.to_owned(),
            source: None,
            reason: Some("live_metadata_unreadable".to_owned()),
        }
    } else {
        DataModelStatus {
            status: "available".to_owned(),
            table: table.to_owned(),
            source: Some("live_ui_metadata".to_owned()),
            reason: None,
        }
    }
}

} // verus!
