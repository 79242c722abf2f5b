//! Why a record could not be resolved, and the object class of a row.
use vstd::prelude::*;
use vstd::string::*;

use crate::row::{Row, RowView};
use crate::text::{identifier, is_identifier, same, same_any_case, same_ignoring_case};

verus! {

/// The caller's selector is at fault, the provider could not be read, or the
/// provider contradicted itself.
#[derive(Debug)]
pub enum RecordResolveError {
    InvalidParams(String),
    Unavailable(String),
    Integrity(String),
}

pub enum ResolveErrorView {
    InvalidParams(Seq<char>),
    Unavailable(Seq<char>),
    Integrity(Seq<char>),
}

impl View for RecordResolveError {
    type V = ResolveErrorView;

    open spec fn view(&self) -> ResolveErrorView {
        match self {
            RecordResolveError::InvalidParams(s) => ResolveErrorView::InvalidParams(s@),
            RecordResolveError::Unavailable(s) => ResolveErrorView::Unavailable(s@),
            RecordResolveError::Integrity(s) => ResolveErrorView::Integrity(s@),
        }
    }
}

impl ResolveErrorView {
    pub open spec fn message(self) -> Seq<char> {
        match self {
            ResolveErrorView::InvalidParams(s) => s,
            ResolveErrorView::Unavailable(s) => s,
            ResolveErrorView::Integrity(s) => s,
        }
    }
}

impl RecordResolveError {
    /// The message.
    pub fn message(&self) -> (r: String)
        ensures
            r@ == self@.message(),
    {
        match self {
            RecordResolveError::InvalidParams(s) => s.clone(),
            RecordResolveError::Unavailable(s) => s.clone(),
            RecordResolveError::Integrity(s) => s.clone(),
        }
    }

    pub fn copy(&self) -> (r: RecordResolveError)
        ensures
            r == self,
    {
        match self {
            RecordResolveError::InvalidParams(s) => RecordResolveError::InvalidParams(s.clone()),
            RecordResolveError::Unavailable(s) => RecordResolveError::Unavailable(s.clone()),
            RecordResolveError::Integrity(s) => RecordResolveError::Integrity(s.clone()),
        }
    }
}

pub fn invalid(message: &str) -> (r: RecordResolveError)
    ensures
        r@ == ResolveErrorView::InvalidParams(message@),
{
    RecordResolveError::InvalidParams(message.to_owned())
}

pub fn unavailable(message: &str) -> (r: RecordResolveError)
    ensures
        r@ == ResolveErrorView::Unavailable(message@),
{
    RecordResolveError::Unavailable(message.to_owned())
}

pub fn integrity(message: &str) -> (r: RecordResolveError)
    ensures
        r@ == ResolveErrorView::Integrity(message@),
{
    RecordResolveError::Integrity(message.to_owned())
}

/// Agreement of a returned text with a stated one, errors included.
pub open spec fn text_result(
    r: Result<String, RecordResolveError>,
    s: Result<Seq<char>, ResolveErrorView>,
) -> bool {
    match r {
        Ok(t) => s == Ok::<Seq<char>, ResolveErrorView>(t@),
        Err(e) => s == Err::<Seq<char>, ResolveErrorView>(e@),
    }
}

/// Agreement of a check with the failure that is stated for it.
pub open spec fn check_result(
    r: Result<(), RecordResolveError>,
    s: Option<ResolveErrorView>,
) -> bool {
    match r {
        Ok(_) => s is None,
        Err(e) => s == Some(e@),
    }
}

/// A row that answers for an identifier carries that identifier.
pub open spec fn identity_failure(row: RowView, expected: Seq<char>) -> Option<ResolveErrorView> {
    if same_ignoring_case(row.sys_id, expected) {
        None
    } else {
        Some(ResolveErrorView::Integrity("provider returned a different sys_id"@))
    }
}

pub fn validate_identity(row: &Row, expected: &str) -> (r: Result<(), RecordResolveError>)
    ensures
        check_result(r, identity_failure(row@, expected@)),
{
    if same_any_case(row.sys_id.as_str(), expected) {
        Ok(())
    } else {
        Err(integrity("provider returned a different sys_id"))
    }
}

/// Tables whose rows mostly belong to a more special class.
pub open spec fn is_parent_table(table: Seq<char>) -> bool {
    table == "task"@ || table == "cmdb_ci"@ || table == "sys_metadata"@
}

/// The class that a row belongs to: what its `sys_class_name` says, or else the
/// table that it was read from. A parent table settles nothing by itself.
pub open spec fn class_of(row: RowView) -> Result<Seq<char>, ResolveErrorView> {
    let class = row.raw("sys_class_name"@);
    let unset = class is None || class == Some(""@);
    if is_parent_table(row.table) && unset {
        Err(
            ResolveErrorView::Unavailable(
                "parent record is readable but its actual object class is hidden; complete type resolution is unavailable"@,
            ),
        )
    } else if class is None && row.has("sys_class_name"@) {
        Err(ResolveErrorView::Integrity("provider returned an unreadable object class"@))
    } else {
        let table = if unset {
            row.table
        } else {
            class->0
        };
        if is_identifier(table) {
            Ok(table)
        } else {
            Err(ResolveErrorView::Integrity("provider returned an invalid object class"@))
        }
    }
}

pub fn actual_table(row: &Row) -> (r: Result<String, RecordResolveError>)
    ensures
        text_result(r, class_of(row@)),
{
    let class: Option<&str> = row.get_raw("sys_class_name");
    let unset: bool = match class {
        None => true,
        Some(s) => same(s, ""),
    };
    let table: &str = row.table.as_str();
    if unset && (same(table, "task") || same(table, "cmdb_ci") || same(table, "sys_metadata")) {
        return Err(
            unavailable(
                "parent record is readable but its actual object class is hidden; complete type resolution is unavailable",
            ),
        );
    }
    if class.is_none() && row.has_field("sys_class_name") {
        return Err(integrity("provider returned an unreadable object class"));
    }
    let actual: &str = match class {
        Some(s) => if unset {
            table
        } else {
            s
        },
        None => table,
    };
    if identifier(actual) {
        Ok(actual.to_owned())
    } else {
        Err(integrity("provider returned an invalid object class"))
    }
}

} // verus!
