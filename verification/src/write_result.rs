//! Writing records: what is checked once the provider has accepted a write.
use vstd::pervasive::unreached;
use vstd::prelude::*;
use vstd::string::*;

use crate::number::{number_of, parse_u64};
use crate::row::{Row, RowView};
use crate::tables::{canonical_record_table, record_table};
use crate::text::{joined, same, text_of, trim, trim_text};
use crate::user::{given, given_text};

verus! {

/// Why an incident could not be written, or its local state not brought in line
/// afterwards.
#[derive(Debug, Clone, PartialEq, Eq)]
pub enum IncidentWriteError {
    /// The provider did not accept the write.
    Upstream(String),
    /// The provider accepted the write, and something failed after that.
    LocalCoherence(String),
}

impl IncidentWriteError {
    /// The error in words.
    pub fn message(&self) -> (r: String)
        ensures
            r@ == (match *self {
                IncidentWriteError::Upstream(d) => d@,
                IncidentWriteError::LocalCoherence(d) =>
                "local Incident coherence failed after ServiceNow accepted the PATCH: "@ + d@,
            }),
    {
        match self {
            IncidentWriteError::Upstream(d) => d.clone(),
            IncidentWriteError::LocalCoherence(d) => joined(
                "local Incident coherence failed after ServiceNow accepted the PATCH: ",
                d.as_str(),
            ),
        }
    }
}

/// The steps of writing an incident, in order.
#[derive(Debug, Clone, Copy, PartialEq, Eq, Structural)]
pub enum IncidentWriteStage {
    Client,
    Patch,
    Reread,
    Concurrency,
    Prune,
}

/// Whether the provider had accepted the write when a step began.
pub open spec fn was_accepted(stage: IncidentWriteStage) -> bool {
    stage is Reread || stage is Concurrency || stage is Prune
}

/// The error for a step that failed: what fails after the write was accepted is
/// never told as if it had not been.
pub fn incident_write_error(stage: IncidentWriteStage, detail: String) -> (r: IncidentWriteError)
    ensures
        r == (if was_accepted(stage) {
            IncidentWriteError::LocalCoherence(detail)
        } else {
            IncidentWriteError::Upstream(detail)
        }),
{
    match stage {
        IncidentWriteStage::Client => IncidentWriteError::Upstream(detail),
        IncidentWriteStage::Patch => IncidentWriteError::Upstream(detail),
        _ => IncidentWriteError::LocalCoherence(detail),
    }
}

/// The error where no client for governed writes is set up.
pub fn missing_write_client() -> (r: IncidentWriteError)
    ensures
        r is Upstream,
        r->Upstream_0@ == "governed Incident write client is not configured"@,
{
    incident_write_error(
        IncidentWriteStage::Client,
        "governed Incident write client is not configured".to_owned(),
    )
}

// --- how far a record has come ---

/// By what a later writer tells that a record has moved on: when it was changed,
/// and how often.
#[derive(Debug, Clone, PartialEq, Eq)]
pub struct ChangeWriteConcurrency {
    pub sys_updated_on: String,
    pub sys_mod_count: Option<u64>,
}

/// The raw text of a field, else what is shown of it, without blanks around it.
pub open spec fn stated(row: RowView, field: Seq<char>) -> Option<Seq<char>> {
    given(
        match row.raw(field) {
            Some(t) => Some(t),
            None => row.shown(field),
        },
    )
}

fn read_stated(row: &Row, field: &str) -> (r: Option<String>)
    ensures
        text_of(r) == stated(row@, field@),
{
    match row.get_raw(field) {
        Some(t) => given_text(Some(t)),
        None => given_text(row.get_str(field)),
    }
}

/// How often a record was changed, where the row says so with a number.
pub open spec fn mod_count(row: RowView) -> Option<u64> {
    match stated(row, "sys_mod_count"@) {
        Some(t) => number_of(t),
        None => None,
    }
}

impl ChangeWriteConcurrency {
    /// Reads how far a record has come. A row has to say when it was changed.
    pub fn from_fresh_row(row: &Row) -> (r: Result<ChangeWriteConcurrency, String>)
        ensures
            match r {
                Ok(c) => stated(row@, "sys_updated_on"@) == Some(c.sys_updated_on@)
                    && c.sys_mod_count == mod_count(row@),
                Err(e) => stated(row@, "sys_updated_on"@) is None && e@
                    == "fresh row does not say when it was updated"@,
            },
    {
        let sys_updated_on: String = match read_stated(row, "sys_updated_on") {
            Some(t) => t,
            None => {
                return Err("fresh row does not say when it was updated".to_owned());
            },
        };
        let sys_mod_count: Option<u64> = match read_stated(row, "sys_mod_count") {
            Some(t) => parse_u64(t.as_str()),
            None => None,
        };
        Ok(ChangeWriteConcurrency { sys_updated_on, sys_mod_count })
    }
}

/// A record as it was read back after a write.
pub struct ChangeWriteResult {
    pub row: Row,
    pub concurrency: ChangeWriteConcurrency,
}

/// Whether a result tells of a row.
pub open spec fn tells_of(result: ChangeWriteResult, row: Row) -> bool {
    &&& result.row == row
    &&& stated(row@, "sys_updated_on"@) == Some(result.concurrency.sys_updated_on@)
    &&& result.concurrency.sys_mod_count == mod_count(row@)
}

/// The result of a write whose record was read back.
pub fn write_result_from_fresh_row(row: Row) -> (r: Result<ChangeWriteResult, String>)
    ensures
        match r {
            Ok(result) => tells_of(result, row),
            Err(e) => stated(row@, "sys_updated_on"@) is None && e@
                == "fresh row does not say when it was updated"@,
        },
{
    match ChangeWriteConcurrency::from_fresh_row(&row) {
        Ok(concurrency) => Ok(ChangeWriteResult { row, concurrency }),
        Err(e) => Err(e),
    }
}

// --- the steps of writing an incident ---

/// How far the write of an incident is: what is done next, or how it ended.
pub enum IncidentWrite {
    /// The change is sent, once.
    Patch,
    /// The record is read back.
    Reread,
    /// The local copy is dropped.
    Prune(ChangeWriteResult),
    Done(ChangeWriteResult),
}

/// What came of a step.
pub enum IncidentReply {
    Patched(Result<(), String>),
    Fresh(Result<Row, String>),
    Pruned(Result<(), String>),
}

impl IncidentWrite {
    /// Whether a reply is that to the step that is due.
    pub open spec fn awaits(self, reply: IncidentReply) -> bool {
        match self {
            IncidentWrite::Patch => reply is Patched,
            IncidentWrite::Reread => reply is Fresh,
            IncidentWrite::Prune(_) => reply is Pruned,
            IncidentWrite::Done(_) => false,
        }
    }

    /// Begins a write, where there is a client for it.
    pub fn start(configured: bool) -> (r: Result<IncidentWrite, IncidentWriteError>)
        ensures
            match r {
                Ok(w) => configured && w is Patch,
                Err(e) => !configured && e is Upstream && e->Upstream_0@
                    == "governed Incident write client is not configured"@,
            },
    {
        if configured {
            Ok(IncidentWrite::Patch)
        } else {
            Err(missing_write_client())
        }
    }

    /// Goes on with what came of the step that was due. What fails once the provider
    /// has accepted the change is told as a local fault.
    pub fn take(self, reply: IncidentReply) -> (r: Result<IncidentWrite, IncidentWriteError>)
        requires
            self.awaits(reply),
        ensures
            match (self, reply) {
                (IncidentWrite::Patch, IncidentReply::Patched(Ok(_))) => r is Ok && r->Ok_0
                    is Reread,
                (IncidentWrite::Patch, IncidentReply::Patched(Err(d))) => r == Err::<
                    IncidentWrite,
                    IncidentWriteError,
                >(IncidentWriteError::Upstream(d)),
                (IncidentWrite::Reread, IncidentReply::Fresh(Ok(row))) => if stated(
                    row@,
                    "sys_updated_on"@,
                ) is Some {
                    r is Ok && r->Ok_0 is Prune && tells_of(r->Ok_0->Prune_0, row)
                } else {
                    r is Err && r->Err_0 is LocalCoherence && r->Err_0->LocalCoherence_0@
                        == "fresh row does not say when it was updated"@
                },
                (IncidentWrite::Reread, IncidentReply::Fresh(Err(d))) => r == Err::<
                    IncidentWrite,
                    IncidentWriteError,
                >(IncidentWriteError::LocalCoherence(d)),
                (IncidentWrite::Prune(result), IncidentReply::Pruned(Ok(_))) => r == Ok::<
                    IncidentWrite,
                    IncidentWriteError,
                >(IncidentWrite::Done(result)),
                (IncidentWrite::Prune(_), IncidentReply::Pruned(Err(d))) => r == Err::<
                    IncidentWrite,
                    IncidentWriteError,
                >(IncidentWriteError::LocalCoherence(d)),
                _ => true,
            },
            r is Err ==> (r->Err_0 is Upstream <==> self is Patch),
    {
        match (self, reply) {
            (IncidentWrite::Patch, IncidentReply::Patched(sent)) => match sent {
                Ok(_) => Ok(IncidentWrite::Reread),
                Err(d) => Err(incident_write_error(IncidentWriteStage::Patch, d)),
            },
            (IncidentWrite::Reread, IncidentReply::Fresh(fresh)) => match fresh {
                Ok(row) => match write_result_from_fresh_row(row) {
                    Ok(result) => Ok(IncidentWrite::Prune(result)),
                    Err(d) => Err(incident_write_error(IncidentWriteStage::Concurrency, d)),
                },
                Err(d) => Err(incident_write_error(IncidentWriteStage::Reread, d)),
            },
            (IncidentWrite::Prune(result), IncidentReply::Pruned(dropped)) => match dropped {
                Ok(_) => Ok(IncidentWrite::Done(result)),
                Err(d) => Err(incident_write_error(IncidentWriteStage::Prune, d)),
            },
            _ => unreached(),
        }
    }
}

// --- the record that was written is read again ---

pub open spec fn no_id_fault(table: Seq<char>) -> Seq<char> {
    table + " write response did not include a sys_id to refetch"@
}

/// The id by which a written record is read again.
pub fn refetch_id(table: &str, expected_sys_id: &str) -> (r: Result<String, String>)
    ensures
        match r {
            Ok(id) => trim(expected_sys_id@).len() > 0 && id@ == trim(expected_sys_id@),
            Err(e) => trim(expected_sys_id@).len() == 0 && e@ == no_id_fault(table@),
        },
{
    let id: String = trim_text(expected_sys_id);
    if id.as_str().unicode_len() == 0 {
        Err(joined(table, " write response did not include a sys_id to refetch"))
    } else {
        Ok(id)
    }
}

/// The record that came back when a written one was read again.
pub struct FreshRow {
    pub table: String,
    pub sys_id: String,
}

/// What is wrong with the record that was read again, if anything: there is
/// none, it is in another table, or it is another record.
pub open spec fn refetch_fault(
    table: Seq<char>,
    expected: Seq<char>,
    written: Seq<char>,
    fresh: Option<FreshRow>,
) -> Option<Seq<char>> {
    match fresh {
        None => Some(
            table + " write response returned "@ + written
                + ", but fresh refetch by sys_id "@ + expected + " found no row"@,
        ),
        Some(row) => if record_table(row.table@) != table {
            Some(
                table + " write refetched sys_id "@ + expected + " from unexpected table "@
                    + row.table@,
            )
        } else if row.sys_id@ != expected {
            Some(table + " write refetched sys_id "@ + row.sys_id@ + ", expected "@ + expected)
        } else {
            None
        },
    }
}

/// Checks the record that was read again after a write.
pub fn check_refetch(table: &str, expected: &str, written: &str, fresh: Option<&FreshRow>) -> (r:
    Result<(), String>)
    ensures
        ({
            let found = match fresh {
                Some(row) => Some(*row),
                None => None,
            };
            match r {
                Ok(_) => refetch_fault(table@, expected@, written@, found) is None,
                Err(e) => refetch_fault(table@, expected@, written@, found) == Some(e@),
            }
        }),
{
    match fresh {
        None => {
            let mut e: String = table.to_owned();
            e.append(" write response returned ");
            e.append(written);
            e.append(", but fresh refetch by sys_id ");
            e.append(expected);
            e.append(" found no row");
            Err(e)
        },
        Some(row) => {
            let actual: String = canonical_record_table(row.table.as_str());
            if !same(actual.as_str(), table) {
                let mut e: String = table.to_owned();
                e.append(" write refetched sys_id ");
                e.append(expected);
                e.append(" from unexpected table ");
                e.append(row.table.as_str());
                return Err(e);
            }
            if !same(row.sys_id.as_str(), expected) {
                let mut e: String = table.to_owned();
                e.append(" write refetched sys_id ");
                e.append(row.sys_id.as_str());
                e.append(", expected ");
                e.append(expected);
                return Err(e);
            }
            Ok(())
        },
    }
}

/// A write is reported as done only for the record that was written: it came
/// back under its id, from its table.
pub proof fn reported_writes_are_reread(
    table: Seq<char>,
    expected: Seq<char>,
    written: Seq<char>,
    fresh: Option<FreshRow>,
)
    requires
        refetch_fault(table, expected, written, fresh) is None,
    ensures
        fresh is Some,
        fresh->0.sys_id@ == expected,
        record_table(fresh->0.table@) == table,
{
}

} // verus!
