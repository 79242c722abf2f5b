//! Records, search results and reports.
use vstd::prelude::*;
use vstd::string::*;

use crate::row::{Cell, Row};
use crate::tables::{
    canonical_record_table_for_number, canonical_server_table_alias, is_business_application_alias,
    is_business_application_name, record_table_for_number, resource_type_of, server_table,
    table_name, ResourceType,
};
use crate::text::{or_empty, owned_or_empty, text_of};
use crate::timestamp::{parse_timestamp, timestamp_of};

verus! {

/// How a record is looked up.
#[derive(Debug, Clone, PartialEq, Eq)]
pub enum RecordLookup {
    Number(String),
    TableSysId { table: String, sys_id: String },
}

/// A reference to a record.
#[derive(Debug, Clone, PartialEq, Eq)]
pub struct RecordRef {
    pub sys_id: String,
    pub number: String,
    pub table: String,
}

/// Where a search found its text.
#[derive(Debug, Clone, Copy, PartialEq, Eq, Structural)]
pub enum MatchField {
    Number,
    ShortDescription,
    Description,
    WorkNotes,
    Content,
    Tag,
    Keyword,
    Alias,
}

#[derive(Debug, Clone, PartialEq, Eq)]
pub struct SearchMatchReason {
    pub field: MatchField,
    pub value: String,
}

#[derive(Debug, Clone, Copy, PartialEq, Eq, Structural)]
pub enum SearchScope {
    All,
    Knowledge,
    WorkNotes,
}

#[derive(Debug, Clone, PartialEq, Eq)]
pub struct SearchResult {
    pub record: RecordRef,
    pub snippet: String,
    pub score: i64,
    pub match_in: MatchField,
    pub matched_value: Option<String>,
    pub reasons: Vec<SearchMatchReason>,
}

impl SearchResult {
    /// The result with another score.
    pub fn with_score(self, score: i64) -> (r: Self)
        ensures
            r == (SearchResult { score, ..self }),
    {
        let mut r = self;
        r.score = score;
        r
    }

    /// The result with what matched, and why.
    pub fn with_explanation(
        self,
        matched_value: Option<String>,
        reasons: Vec<SearchMatchReason>,
    ) -> (r: Self)
        ensures
            r == (SearchResult { matched_value, reasons, ..self }),
    {
        let mut r = self;
        r.matched_value = matched_value;
        r.reasons = reasons;
        r
    }
}

/// The result for a record that was asked for by its exact number.
pub fn exact_number_result(record: RecordRef, short_description: String) -> (r: SearchResult)
    ensures
        r.record == record,
        r.snippet == short_description,
        r.score == 30,
        r.match_in == MatchField::Number,
        r.matched_value == Some(record.number),
        r.reasons@ == seq![SearchMatchReason { field: MatchField::Number, value: record.number }],
{
    let mut reasons: Vec<SearchMatchReason> = Vec::new();
    reasons.push(SearchMatchReason { field: MatchField::Number, value: record.number.clone() });
    let matched_value: Option<String> = Some(record.number.clone());
    SearchResult {
        record,
        snippet: short_description,
        score: 30,
        match_in: MatchField::Number,
        matched_value,
        reasons,
    }
}

/// Where a record came from.
#[derive(Debug, Clone, Copy, PartialEq, Eq, Structural)]
pub enum CacheSource {
    Memory,
    Disk,
    Api,
}

#[derive(Debug, Clone, PartialEq, Eq)]
pub enum DegradedReadReason {
    MissingFile,
    UnreadableFile { error: String },
    ParseFailure { error: String },
    RawJsonFallback,
}

/// The value of a field, raw and as it is displayed.
#[derive(Debug, Clone, PartialEq, Eq)]
pub struct FieldValue {
    pub value: String,
    pub display_value: Option<String>,
}

/// A named field.
#[derive(Debug, Clone, PartialEq, Eq)]
pub struct NamedField {
    pub name: String,
    pub field: FieldValue,
}

/// A record that a field points to.
#[derive(Debug, Clone, PartialEq, Eq)]
pub struct Reference {
    pub sys_id: String,
    pub table: String,
    pub display_name: String,
}

impl Reference {
    pub fn copy(&self) -> (r: Reference)
        ensures
            r == *self,
    {
        Reference {
            sys_id: self.sys_id.clone(),
            table: self.table.clone(),
            display_name: self.display_name.clone(),
        }
    }
}

/// A reference under the name of its field.
#[derive(Debug, Clone, PartialEq, Eq)]
pub struct NamedReference {
    pub name: String,
    pub reference: Reference,
}

/// One entry of a journal. Its time is in seconds since 1970.
#[derive(Debug, Clone, PartialEq, Eq)]
pub struct JournalEntry {
    pub timestamp: i64,
    pub author: String,
    pub body: String,
}

impl JournalEntry {
    /// An entry as the provider writes it. An entry whose time cannot be read
    /// counts as of now.
    pub fn from_servicenow(timestamp: &str, author: String, body: String, now: i64) -> (r: Self)
        ensures
            r.author == author,
            r.body == body,
            r.timestamp == (match timestamp_of(timestamp@) {
                Some(t) => t,
                None => now,
            }),
    {
        let time: i64 = match parse_timestamp(timestamp) {
            Some(t) => t,
            None => now,
        };
        JournalEntry { timestamp: time, author, body }
    }
}

/// The later of the entries, the last one where several are equally late.
pub open spec fn latest_of(entries: Seq<JournalEntry>, i: int) -> bool {
    &&& 0 <= i < entries.len()
    &&& forall|j: int|
        0 <= j < entries.len() ==> (#[trigger] entries[j]).timestamp <= entries[i].timestamp
    &&& forall|j: int| i < j < entries.len() ==> (#[trigger] entries[j]).timestamp
        < entries[i].timestamp
}

/// The latest entry of a record's work notes and comments.
pub fn latest_activity(work_notes: &Vec<JournalEntry>, comments: &Vec<JournalEntry>) -> (r: Option<
    JournalEntry,
>)
    ensures
        ({
            let all = work_notes@ + comments@;
            match r {
                Some(e) => exists|i: int| #[trigger] latest_of(all, i) && e == all[i],
                None => all.len() == 0,
            }
        }),
{
    let ghost all = work_notes@ + comments@;
    let mut best: Option<JournalEntry> = None;
    let ghost mut at: int = 0;
    let mut i: usize = 0;
    while i < work_notes.len()
        invariant
            all == work_notes@ + comments@,
            i <= work_notes@.len(),
            i == 0 ==> best is None,
            i > 0 ==> best is Some && 0 <= at < i && best->0 == all[at] && (forall|j: int|
                0 <= j < i ==> (#[trigger] all[j]).timestamp <= all[at].timestamp) && (forall|j: int|
                at < j < i ==> (#[trigger] all[j]).timestamp < all[at].timestamp),
        decreases work_notes@.len() - i,
    {
        let e: &JournalEntry = &work_notes[i];
        assert(all[i as int] == *e);
        let newer: bool = match &best {
            Some(b) => b.timestamp <= e.timestamp,
            None => true,
        };
        if newer {
            best = Some(
                JournalEntry {
                    timestamp: e.timestamp,
                    author: e.author.clone(),
                    body: e.body.clone(),
                },
            );
            proof {
                at = i as int;
            }
        }
        i += 1;
    }
    let mut k: usize = 0;
    while k < comments.len()
        invariant
            all == work_notes@ + comments@,
            k <= comments@.len(),
            work_notes@.len() + k == 0 ==> best is None,
            work_notes@.len() + k > 0 ==> best is Some && 0 <= at < work_notes@.len() + k && best->0
                == all[at] && (forall|j: int|
                0 <= j < work_notes@.len() + k ==> (#[trigger] all[j]).timestamp
                    <= all[at].timestamp) && (forall|j: int|
                at < j < work_notes@.len() + k ==> (#[trigger] all[j]).timestamp
                    < all[at].timestamp),
        decreases comments@.len() - k,
    {
        let e: &JournalEntry = &comments[k];
        assert(all[work_notes@.len() + k] == *e);
        let newer: bool = match &best {
            Some(b) => b.timestamp <= e.timestamp,
            None => true,
        };
        if newer {
            best = Some(
                JournalEntry {
                    timestamp: e.timestamp,
                    author: e.author.clone(),
                    body: e.body.clone(),
                },
            );
            proof {
                at = work_notes@.len() + k;
            }
        }
        k += 1;
    }
    proof {
        if all.len() > 0 {
            assert(latest_of(all, at));
        }
    }
    best
}

/// What stands for a record of the configuration database: these records keep
/// their number, state and descriptions in fields of their own.
#[derive(Debug, Clone, PartialEq, Eq)]
pub struct RecordTexts {
    pub number: String,
    pub state: String,
    pub short_description: String,
    pub description: String,
}

/// A record.
#[derive(Debug, Clone, PartialEq, Eq)]
pub struct SnowRecord {
    pub sys_id: String,
    pub number: String,
    pub table: String,
    pub resource_type: ResourceType,
    pub state: String,
    pub short_description: String,
    pub description: String,
    pub fields: Vec<NamedField>,
    pub work_notes: Vec<JournalEntry>,
    pub comments: Vec<JournalEntry>,
    pub parent: Option<RecordRef>,
    pub children: Vec<RecordRef>,
    pub references: Vec<NamedReference>,
    pub synced_at: i64,
    pub source: CacheSource,
}

/// Whether a table is one whose records keep their texts elsewhere.
pub open spec fn is_configuration_table(table: Seq<char>) -> bool {
    is_business_application_name(table_name(table)) || server_table(table_name(table)) is Some
}

/// The field that a cell becomes.
pub open spec fn is_field_of(f: NamedField, c: Cell) -> bool {
    &&& f.name == c.name
    &&& f.field.display_value == c.display
    &&& f.field.value@ == (match c.raw {
        Some(s) => s@,
        None => or_empty(text_of(c.other)),
    })
}

fn read_fields(cells: &Vec<Cell>) -> (r: Vec<NamedField>)
    ensures
        r@.len() == cells@.len(),
        forall|i: int| 0 <= i < r@.len() ==> is_field_of(#[trigger] r@[i], cells@[i]),
{
    let mut out: Vec<NamedField> = Vec::new();
    let mut i: usize = 0;
    while i < cells.len()
        invariant
            i <= cells@.len(),
            out@.len() == i,
            forall|j: int| 0 <= j < i ==> is_field_of(#[trigger] out@[j], cells@[j]),
        decreases cells@.len() - i,
    {
        let c: &Cell = &cells[i];
        let value: String = match &c.raw {
            Some(s) => s.clone(),
            None => match &c.other {
                Some(s) => s.clone(),
                None => String::new(),
            },
        };
        out.push(
            NamedField {
                name: c.name.clone(),
                field: FieldValue { value, display_value: c.display.clone() },
            },
        );
        i += 1;
    }
    out
}

impl SnowRecord {
    /// The record that a row from the provider is. `texts` stands for a record
    /// of the configuration database; any other record has its texts in the row.
    /// The table is the canonical one, also where only the number tells that the
    /// record is a change.
    pub fn from_servicenow(
        row: &Row,
        texts: RecordTexts,
        work_notes: Vec<JournalEntry>,
        comments: Vec<JournalEntry>,
        now: i64,
    ) -> (r: Self)
        ensures
            ({
                let special = is_configuration_table(row@.table);
                &&& r.sys_id == row.sys_id
                &&& r.number@ == (if special {
                    texts.number@
                } else {
                    or_empty(row@.shown("number"@))
                })
                &&& r.table@ == record_table_for_number(row@.table, r.number@)
                &&& r.resource_type == resource_type_of(r.table@)
                &&& r.state@ == (if special {
                    texts.state@
                } else {
                    or_empty(row@.shown("state"@))
                })
                &&& r.short_description@ == (if special {
                    texts.short_description@
                } else {
                    or_empty(row@.shown("short_description"@))
                })
                &&& r.description@ == (if special {
                    texts.description@
                } else {
                    or_empty(row@.shown("description"@))
                })
                &&& r.fields@.len() == row.cells@.len()
                &&& forall|i: int|
                    0 <= i < r.fields@.len() ==> is_field_of(#[trigger] r.fields@[i], row.cells@[i])
                &&& r.work_notes == work_notes
                &&& r.comments == comments
                &&& r.parent is None
                &&& r.children@.len() == 0
                &&& r.references@.len() == 0
                &&& r.synced_at == now
                &&& r.source == CacheSource::Api
            }),
    {
        let special: bool = is_business_application_alias(row.table.as_str())
            || canonical_server_table_alias(row.table.as_str()).is_some();
        let texts: RecordTexts = if special {
            texts
        } else {
            RecordTexts {
                number: owned_or_empty(row.get_str("number")),
                state: owned_or_empty(row.get_str("state")),
                short_description: owned_or_empty(row.get_str("short_description")),
                description: owned_or_empty(row.get_str("description")),
            }
        };
        let table: String = canonical_record_table_for_number(
            row.table.as_str(),
            texts.number.as_str(),
        );
        let resource_type: ResourceType = ResourceType::from_table(table.as_str());
        SnowRecord {
            sys_id: row.sys_id.clone(),
            number: texts.number,
            table,
            resource_type,
            state: texts.state,
            short_description: texts.short_description,
            description: texts.description,
            fields: read_fields(&row.cells),
            work_notes,
            comments,
            parent: None,
            children: Vec::new(),
            references: Vec::new(),
            synced_at: now,
            source: CacheSource::Api,
        }
    }
}

// --- reports ---

#[derive(Debug, Clone, PartialEq, Eq)]
pub struct RepairReport {
    pub scanned_records: usize,
    pub repaired_records: usize,
    pub skipped_records: usize,
}

#[derive(Debug, Clone, PartialEq, Eq)]
pub struct RebuildReport {
    pub scanned_documents: usize,
    pub rebuilt_records: usize,
}

#[derive(Debug, Clone, PartialEq, Eq)]
pub struct OrphanRecordRow {
    pub sys_id: String,
    pub number: String,
    pub file_path: Option<String>,
}

#[derive(Debug, Clone, PartialEq, Eq)]
pub struct UnindexedVaultDocument {
    pub sys_id: String,
    pub number: String,
    pub relative_path: String,
}

#[derive(Debug, Clone, PartialEq, Eq)]
pub struct OrphanPruneReport {
    pub dry_run: bool,
    pub orphan_rows_scanned: usize,
    pub orphan_rows_pruned: usize,
    pub orphan_rows: Vec<OrphanRecordRow>,
}

} // verus!
