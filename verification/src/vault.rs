//! The vault of documents, and the records that the store keeps of them.
use vstd::prelude::*;
use vstd::string::*;

use crate::document::fresh_token;
use crate::listing::{lemma_filter_ends, lemma_filter_step};
use crate::text::same;
use crate::types::{
    DegradedReadReason, OrphanPruneReport, OrphanRecordRow, RebuildReport, RepairReport,
    UnindexedVaultDocument,
};

verus! {

/// A record of the store.
#[derive(Debug, Clone, PartialEq, Eq)]
pub struct RecordRow {
    pub sys_id: String,
    pub number: String,
    pub short_desc: Option<String>,
    pub description: Option<String>,
    pub assigned_to: Option<String>,
    pub parent_id: Option<String>,
    pub file_path: Option<String>,
    pub raw_json: String,
}

/// A document of the vault.
#[derive(Debug, Clone, PartialEq, Eq)]
pub struct VaultEntry {
    pub sys_id: String,
    pub number: String,
    pub short_description: String,
    pub description: String,
    pub assigned_to: Option<String>,
    pub parent_sys_id: Option<String>,
    pub raw_json: String,
    pub relative_path: String,
}

/// The record that is kept of a document.
pub open spec fn row_of(entry: VaultEntry) -> RecordRow {
    RecordRow {
        sys_id: entry.sys_id,
        number: entry.number,
        short_desc: Some(entry.short_description),
        description: Some(entry.description),
        assigned_to: entry.assigned_to,
        parent_id: entry.parent_sys_id,
        file_path: Some(entry.relative_path),
        raw_json: entry.raw_json,
    }
}

pub fn row_from_entry(entry: &VaultEntry) -> (r: RecordRow)
    ensures
        r == row_of(*entry),
{
    RecordRow {
        sys_id: entry.sys_id.clone(),
        number: entry.number.clone(),
        short_desc: Some(entry.short_description.clone()),
        description: Some(entry.description.clone()),
        assigned_to: match &entry.assigned_to {
            Some(s) => Some(s.clone()),
            None => None,
        },
        parent_id: match &entry.parent_sys_id {
            Some(s) => Some(s.clone()),
            None => None,
        },
        file_path: Some(entry.relative_path.clone()),
        raw_json: entry.raw_json.clone(),
    }
}

/// The records by id; of two under one id the later counts.
pub open spec fn row_map(rows: Seq<RecordRow>) -> Map<Seq<char>, RecordRow>
    decreases rows.len(),
{
    if rows.len() == 0 {
        Map::empty()
    } else {
        row_map(rows.drop_last()).insert(rows.last().sys_id@, rows.last())
    }
}

/// The vault and the store beside it.
pub struct VaultService {
    pub documents: Vec<VaultEntry>,
    pub rows: Vec<RecordRow>,
}

/// The records from before, with those of the documents in place of what was
/// under their ids.
pub open spec fn rebuilt(
    before: Map<Seq<char>, RecordRow>,
    documents: Seq<VaultEntry>,
) -> Map<Seq<char>, RecordRow>
    decreases documents.len(),
{
    if documents.len() == 0 {
        before
    } else {
        rebuilt(before, documents.drop_last()).insert(
            documents.last().sys_id@,
            row_of(documents.last()),
        )
    }
}

/// Puts a record into the store, in place of what was under its id.
pub fn upsert_row(rows: &mut Vec<RecordRow>, row: RecordRow)
    ensures
        row_map(final(rows)@) == row_map(old(rows)@).insert(row.sys_id@, row),
{
    let ghost before = rows@;
    let mut kept: Vec<RecordRow> = Vec::new();
    let ghost mut done: int = 0;
    proof {
        assert(before.subrange(0, before.len() as int) =~= before);
        assert(row_map(kept@) =~= row_map(before.subrange(0, 0)).remove(row.sys_id@));
    }
    while rows.len() > 0
        invariant
            0 <= done <= before.len(),
            rows@ == before.subrange(done, before.len() as int),
            row_map(kept@) == row_map(before.subrange(0, done)).remove(row.sys_id@),
        decreases rows@.len(),
    {
        let item: RecordRow = rows.remove(0);
        let ghost held = kept@;
        proof {
            assert(item == before[done]);
            let longer = before.subrange(0, done + 1);
            assert(longer.drop_last() =~= before.subrange(0, done));
            assert(longer.last() == item);
            done = done + 1;
            assert(rows@ =~= before.subrange(done, before.len() as int));
        }
        if !same(item.sys_id.as_str(), row.sys_id.as_str()) {
            kept.push(item);
            assert(kept@.drop_last() =~= held);
        }
        assert(row_map(kept@) =~= row_map(before.subrange(0, done)).remove(row.sys_id@));
    }
    assert(before.subrange(0, done) =~= before);
    let ghost others = kept@;
    kept.push(row);
    assert(kept@.drop_last() =~= others);
    *rows = kept;
    assert(row_map(rows@) =~= row_map(before).insert(row.sys_id@, row));
}

impl VaultService {
    /// Puts the record of every document into the store.
    pub fn rebuild_cache(&mut self) -> (r: RebuildReport)
        ensures
            final(self).documents == old(self).documents,
            row_map(final(self).rows@) == rebuilt(
                row_map(old(self).rows@),
                old(self).documents@,
            ),
            r.scanned_documents == old(self).documents@.len(),
            r.rebuilt_records == old(self).documents@.len(),
    {
        let ghost before = row_map(self.rows@);
        let ghost documents = self.documents;
        let scanned: usize = self.documents.len();
        let mut done: usize = 0;
        assert(documents@.subrange(0, 0) =~= Seq::<VaultEntry>::empty());
        while done < self.documents.len()
            invariant
                self.documents == documents,
                done <= documents@.len(),
                row_map(self.rows@) == rebuilt(before, documents@.subrange(0, done as int)),
            decreases documents@.len() - done,
        {
            let row: RecordRow = row_from_entry(&self.documents[done]);
            upsert_row(&mut self.rows, row);
            proof {
                let longer = documents@.subrange(0, done + 1);
                assert(longer.drop_last() =~= documents@.subrange(0, done as int));
                assert(longer.last() == documents@[done as int]);
            }
            done += 1;
        }
        assert(documents@.subrange(0, done as int) =~= documents@);
        RebuildReport { scanned_documents: scanned, rebuilt_records: done }
    }

    /// Puts the record of every document into the store, and says how many there
    /// were.
    pub fn rebuild_cache_from_vault(&mut self) -> (r: usize)
        ensures
            final(self).documents == old(self).documents,
            row_map(final(self).rows@) == rebuilt(
                row_map(old(self).rows@),
                old(self).documents@,
            ),
            r == old(self).documents@.len(),
    {
        let report: RebuildReport = self.rebuild_cache();
        report.rebuilt_records
    }
}

/// Whether a document is the last one under its id.
pub open spec fn is_last_under_its_id(documents: Seq<VaultEntry>, i: int) -> bool {
    &&& 0 <= i < documents.len()
    &&& forall|j: int| i < j < documents.len() ==> (#[trigger] documents[j]).sys_id@
        != documents[i].sys_id@
}

/// After a rebuild there is a record under the id of every document. It is that of
/// the last document under the id, and so names its file. Records without a
/// document stay as they were.
pub proof fn rebuilt_stores_hold_every_document(
    before: Map<Seq<char>, RecordRow>,
    documents: Seq<VaultEntry>,
)
    ensures
        forall|i: int|
            0 <= i < documents.len() ==> rebuilt(before, documents).dom().contains(
                (#[trigger] documents[i]).sys_id@,
            ),
        forall|i: int| #[trigger]
            is_last_under_its_id(documents, i) ==> rebuilt(
                before,
                documents,
            )[documents[i].sys_id@] == row_of(documents[i]) && rebuilt(
                before,
                documents,
            )[documents[i].sys_id@].file_path == Some(documents[i].relative_path),
        forall|id: Seq<char>|
            (forall|i: int| 0 <= i < documents.len() ==> (#[trigger] documents[i]).sys_id@ != id)
                ==> (#[trigger] rebuilt(before, documents).dom().contains(id)
                <==> before.dom().contains(id)) && (before.dom().contains(id) ==> rebuilt(
                before,
                documents,
            )[id] == before[id]),
    decreases documents.len(),
{
    if documents.len() > 0 {
        let front = documents.drop_last();
        let after = rebuilt(before, documents);
        let between = rebuilt(before, front);
        let last = documents.len() - 1;
        rebuilt_stores_hold_every_document(before, front);
        assert forall|i: int| 0 <= i < documents.len() implies after.dom().contains(
            (#[trigger] documents[i]).sys_id@,
        ) by {
            if i < last {
                assert(front[i] == documents[i]);
                assert(between.dom().contains(front[i].sys_id@));
            }
        }
        assert forall|i: int| #[trigger] is_last_under_its_id(documents, i) implies after[documents[i].sys_id@]
            == row_of(documents[i]) by {
            if i < last {
                assert(documents[last].sys_id@ != documents[i].sys_id@);
                assert forall|j: int| i < j < front.len() implies (#[trigger] front[j]).sys_id@
                    != front[i].sys_id@ by {
                    assert(front[j] == documents[j]);
                }
                assert(is_last_under_its_id(front, i));
            }
        }
        assert forall|id: Seq<char>|
            (forall|i: int| 0 <= i < documents.len() ==> (#[trigger] documents[i]).sys_id@
                != id) implies (#[trigger] after.dom().contains(id) <==> before.dom().contains(id))
            && (before.dom().contains(id) ==> after[id] == before[id]) by {
            assert(documents[last].sys_id@ != id);
            assert forall|i: int| 0 <= i < front.len() implies (#[trigger] front[i]).sys_id@
                != id by {
                assert(front[i] == documents[i]);
            }
            assert(between.dom().contains(id) <==> before.dom().contains(id));
        }
    }
}

// --- a store that is built anew ---

/// What becomes of a store that was built beside the old one.
#[derive(Debug, Clone, PartialEq, Eq)]
pub enum RebuildEnd {
    /// It takes the place of the old one.
    Replace(RebuildReport),
    /// It is thrown away.
    Discard(String),
}

/// The new store takes the place of the old one only where every document got
/// into it and it is in the format of today.
pub fn finish_rebuild(scanned_documents: usize, fault: Option<String>, current_format: bool) -> (r:
    RebuildEnd)
    ensures
        match r {
            RebuildEnd::Replace(report) => fault is None && current_format
                && report.scanned_documents == scanned_documents && report.rebuilt_records
                == scanned_documents,
            RebuildEnd::Discard(e) => match fault {
                Some(f) => e == f,
                None => !current_format && e@
                    == "rebuilt cache did not validate as the current format"@,
            },
        },
{
    match fault {
        Some(e) => RebuildEnd::Discard(e),
        None => if current_format {
            RebuildEnd::Replace(
                RebuildReport { scanned_documents, rebuilt_records: scanned_documents },
            )
        } else {
            RebuildEnd::Discard("rebuilt cache did not validate as the current format".to_owned())
        },
    }
}

pub open spec fn rebuild_file_name(file_name: Seq<char>, token: Seq<char>) -> Seq<char> {
    "."@ + file_name + ".rebuild-"@ + token + ".tmp"@
}

/// The name of the file that the new store is built in, for a token.
pub fn rebuild_name_with(file_name: &str, token: &str) -> (r: String)
    ensures
        r@ == rebuild_file_name(file_name@, token@),
{
    let mut out: String = ".".to_owned();
    out.append(file_name);
    out.append(".rebuild-");
    out.append(token);
    out.append(".tmp");
    out
}

/// A name for the file that the new store is built in.
pub fn rebuild_name(file_name: &str) -> (r: String)
    ensures
        exists|token: Seq<char>| r@ == #[trigger] rebuild_file_name(file_name@, token),
{
    let token: String = fresh_token();
    let r: String = rebuild_name_with(file_name, token.as_str());
    assert(r@ == rebuild_file_name(file_name@, token@));
    r
}

// --- what is derived from a record ---

/// Something derived from a record, where it came from, and how much it weighs.
pub struct EnrichmentCandidate<W> {
    pub value: String,
    pub origin: String,
    pub weight: W,
}

pub struct TagRow<W> {
    pub record_sys_id: String,
    pub tag: String,
    pub source: String,
    pub weight: W,
}

pub struct KeywordRow<W> {
    pub record_sys_id: String,
    pub keyword: String,
    pub source: String,
    pub weight: W,
}

pub struct AliasRow {
    pub record_sys_id: String,
    pub alias: String,
    pub kind: String,
    pub source: String,
}

/// The tags of a record for the store, in their order.
pub fn tag_rows<W>(record_sys_id: &str, candidates: Vec<EnrichmentCandidate<W>>) -> (r: Vec<TagRow<W>>)
    ensures
        r@.len() == candidates@.len(),
        forall|i: int|
            0 <= i < r@.len() ==> (#[trigger] r@[i]).record_sys_id@ == record_sys_id@ && r@[i].tag
                == candidates@[i].value && r@[i].source == candidates@[i].origin && r@[i].weight
                == candidates@[i].weight,
{
    let ghost all = candidates@;
    let mut rest: Vec<EnrichmentCandidate<W>> = candidates;
    let mut out: Vec<TagRow<W>> = Vec::new();
    assert(all.subrange(0, all.len() as int) =~= all);
    while rest.len() > 0
        invariant
            out@.len() <= all.len(),
            rest@ == all.subrange(out@.len() as int, all.len() as int),
            forall|i: int|
                0 <= i < out@.len() ==> (#[trigger] out@[i]).record_sys_id@ == record_sys_id@
                    && out@[i].tag == all[i].value && out@[i].source == all[i].origin
                    && out@[i].weight == all[i].weight,
        decreases rest@.len(),
    {
        let c: EnrichmentCandidate<W> = rest.remove(0);
        assert(c == all[out@.len() as int]);
        out.push(
            TagRow {
                record_sys_id: record_sys_id.to_owned(),
                tag: c.value,
                source: c.origin,
                weight: c.weight,
            },
        );
        assert(rest@ =~= all.subrange(out@.len() as int, all.len() as int));
    }
    out
}

/// The keywords of a record for the store, in their order.
pub fn keyword_rows<W>(record_sys_id: &str, candidates: Vec<EnrichmentCandidate<W>>) -> (r: Vec<
    KeywordRow<W>,
>)
    ensures
        r@.len() == candidates@.len(),
        forall|i: int|
            0 <= i < r@.len() ==> (#[trigger] r@[i]).record_sys_id@ == record_sys_id@
                && r@[i].keyword == candidates@[i].value && r@[i].source == candidates@[i].origin
                && r@[i].weight == candidates@[i].weight,
{
    let ghost all = candidates@;
    let mut rest: Vec<EnrichmentCandidate<W>> = candidates;
    let mut out: Vec<KeywordRow<W>> = Vec::new();
    assert(all.subrange(0, all.len() as int) =~= all);
    while rest.len() > 0
        invariant
            out@.len() <= all.len(),
            rest@ == all.subrange(out@.len() as int, all.len() as int),
            forall|i: int|
                0 <= i < out@.len() ==> (#[trigger] out@[i]).record_sys_id@ == record_sys_id@
                    && out@[i].keyword == all[i].value && out@[i].source == all[i].origin
                    && out@[i].weight == all[i].weight,
        decreases rest@.len(),
    {
        let c: EnrichmentCandidate<W> = rest.remove(0);
        assert(c == all[out@.len() as int]);
        out.push(
            KeywordRow {
                record_sys_id: record_sys_id.to_owned(),
                keyword: c.value,
                source: c.origin,
                weight: c.weight,
            },
        );
        assert(rest@ =~= all.subrange(out@.len() as int, all.len() as int));
    }
    out
}

/// The other names of a record for the store, in their order. Where a name came
/// from is also what kind of name it is.
pub fn alias_rows<W>(record_sys_id: &str, candidates: Vec<EnrichmentCandidate<W>>) -> (r: Vec<
    AliasRow,
>)
    ensures
        r@.len() == candidates@.len(),
        forall|i: int|
            0 <= i < r@.len() ==> (#[trigger] r@[i]).record_sys_id@ == record_sys_id@ && r@[i].alias
                == candidates@[i].value && r@[i].kind == candidates@[i].origin && r@[i].source
                == candidates@[i].origin,
{
    let ghost all = candidates@;
    let mut rest: Vec<EnrichmentCandidate<W>> = candidates;
    let mut out: Vec<AliasRow> = Vec::new();
    assert(all.subrange(0, all.len() as int) =~= all);
    while rest.len() > 0
        invariant
            out@.len() <= all.len(),
            rest@ == all.subrange(out@.len() as int, all.len() as int),
            forall|i: int|
                0 <= i < out@.len() ==> (#[trigger] out@[i]).record_sys_id@ == record_sys_id@
                    && out@[i].alias == all[i].value && out@[i].kind == all[i].origin
                    && out@[i].source == all[i].origin,
        decreases rest@.len(),
    {
        let c: EnrichmentCandidate<W> = rest.remove(0);
        assert(c == all[out@.len() as int]);
        out.push(
            AliasRow {
                record_sys_id: record_sys_id.to_owned(),
                alias: c.value,
                kind: c.origin.clone(),
                source: c.origin,
            },
        );
        assert(rest@ =~= all.subrange(out@.len() as int, all.len() as int));
    }
    out
}

// --- checking the store against the vault ---

/// A record of the store, and whether the file that it names is there.
#[derive(Debug, Clone, PartialEq, Eq)]
pub struct CheckedRow {
    pub sys_id: String,
    pub number: String,
    pub file_path: Option<String>,
    pub file_exists: bool,
}

/// A document that the scan of the vault came upon.
#[derive(Debug, Clone, PartialEq, Eq)]
pub struct ScannedDocument {
    pub sys_id: String,
    pub number: String,
    pub relative_path: String,
}

/// A reading that had to make do with less.
#[derive(Debug, Clone, PartialEq, Eq)]
pub struct DegradedRead {
    pub sys_id: String,
    pub number: String,
    pub reason: DegradedReadReason,
}

/// What the store says of what was derived from the records.
#[derive(Debug, Clone, PartialEq, Eq)]
pub struct ProjectionCounts {
    pub projected_references: usize,
    pub projected_relationships: usize,
    pub projected_enrichment_rows: usize,
}

#[derive(Debug, Clone, PartialEq, Eq)]
pub struct VaultVerificationReport {
    pub scanned_documents: usize,
    pub active_records: usize,
    pub projections: ProjectionCounts,
    pub degraded_reads: Vec<DegradedRead>,
    pub missing_markdown_rows: Vec<OrphanRecordRow>,
    pub orphan_record_rows: Vec<OrphanRecordRow>,
    /// The files that could not be read as documents.
    pub unprojectable_documents: Vec<String>,
    pub unindexed_documents: Vec<UnindexedVaultDocument>,
}

/// Records that name a file which is not there.
pub open spec fn lacks_its_file() -> spec_fn(CheckedRow) -> bool {
    |row: CheckedRow| row.file_path is Some && !row.file_exists
}

/// Records without a document: they name no file, or one that is not there.
pub open spec fn is_orphan() -> spec_fn(CheckedRow) -> bool {
    |row: CheckedRow| row.file_path is None || !row.file_exists
}

pub open spec fn orphan_row(row: CheckedRow) -> OrphanRecordRow {
    OrphanRecordRow { sys_id: row.sys_id, number: row.number, file_path: row.file_path }
}

pub open spec fn orphan_rows(rows: Seq<CheckedRow>) -> Seq<OrphanRecordRow> {
    rows.map_values(|row: CheckedRow| orphan_row(row))
}

pub open spec fn has_record(rows: Seq<CheckedRow>, id: Seq<char>) -> bool {
    exists|i: int| 0 <= i < rows.len() && (#[trigger] rows[i]).sys_id@ == id
}

/// Documents without a record.
pub open spec fn is_unindexed(rows: Seq<CheckedRow>) -> spec_fn(ScannedDocument) -> bool {
    |doc: ScannedDocument| !has_record(rows, doc.sys_id@)
}

pub open spec fn unindexed(docs: Seq<ScannedDocument>) -> Seq<UnindexedVaultDocument> {
    docs.map_values(
        |doc: ScannedDocument|
            UnindexedVaultDocument {
                sys_id: doc.sys_id,
                number: doc.number,
                relative_path: doc.relative_path,
            },
    )
}

fn record_known(rows: &Vec<CheckedRow>, id: &str) -> (r: bool)
    ensures
        r == has_record(rows@, id@),
{
    let mut i: usize = 0;
    while i < rows.len()
        invariant
            i <= rows@.len(),
            forall|k: int| 0 <= k < i ==> (#[trigger] rows@[k]).sys_id@ != id@,
        decreases rows@.len() - i,
    {
        if same(rows[i].sys_id.as_str(), id) {
            return true;
        }
        i += 1;
    }
    false
}

fn copy_orphan(row: &CheckedRow) -> (r: OrphanRecordRow)
    ensures
        r == orphan_row(*row),
{
    OrphanRecordRow {
        sys_id: row.sys_id.clone(),
        number: row.number.clone(),
        file_path: match &row.file_path {
            Some(p) => Some(p.clone()),
            None => None,
        },
    }
}

/// Holds the records against the documents.
pub fn verify_vault(
    rows: &Vec<CheckedRow>,
    documents: &Vec<ScannedDocument>,
    projections: ProjectionCounts,
    degraded_reads: Vec<DegradedRead>,
    unprojectable_documents: Vec<String>,
) -> (r: VaultVerificationReport)
    ensures
        r.scanned_documents == documents@.len(),
        r.active_records == rows@.len(),
        r.projections == projections,
        r.degraded_reads == degraded_reads,
        r.unprojectable_documents == unprojectable_documents,
        r.missing_markdown_rows@ == orphan_rows(rows@.filter(lacks_its_file())),
        r.orphan_record_rows@ == orphan_rows(rows@.filter(is_orphan())),
        r.unindexed_documents@ == unindexed(documents@.filter(is_unindexed(rows@))),
{
    let ghost all = rows@;
    let ghost lacks = lacks_its_file();
    let ghost orphaned = is_orphan();
    let mut missing: Vec<OrphanRecordRow> = Vec::new();
    let mut orphans: Vec<OrphanRecordRow> = Vec::new();
    let mut i: usize = 0;
    proof {
        lemma_filter_ends(all, lacks);
        lemma_filter_ends(all, orphaned);
        assert(missing@ =~= orphan_rows(all.subrange(0, 0).filter(lacks)));
        assert(orphans@ =~= orphan_rows(all.subrange(0, 0).filter(orphaned)));
    }
    while i < rows.len()
        invariant
            i <= rows@.len(),
            all == rows@,
            lacks == lacks_its_file(),
            orphaned == is_orphan(),
            missing@ == orphan_rows(all.subrange(0, i as int).filter(lacks)),
            orphans@ == orphan_rows(all.subrange(0, i as int).filter(orphaned)),
        decreases rows@.len() - i,
    {
        let row: &CheckedRow = &rows[i];
        let ghost before_missing = missing@;
        let ghost before_orphans = orphans@;
        let ghost kept_missing = all.subrange(0, i as int).filter(lacks);
        let ghost kept_orphans = all.subrange(0, i as int).filter(orphaned);
        proof {
            lemma_filter_step(all, lacks, i as int);
            lemma_filter_step(all, orphaned, i as int);
            assert(orphan_rows(kept_missing.push(*row)) =~= orphan_rows(kept_missing).push(
                orphan_row(*row),
            ));
            assert(orphan_rows(kept_orphans.push(*row)) =~= orphan_rows(kept_orphans).push(
                orphan_row(*row),
            ));
        }
        if row.file_path.is_some() {
            if !row.file_exists {
                missing.push(copy_orphan(row));
                orphans.push(copy_orphan(row));
            }
        } else {
            orphans.push(copy_orphan(row));
        }
        i += 1;
    }
    assert(all.subrange(0, i as int) =~= all);
    let ghost docs = documents@;
    let ghost loose = is_unindexed(rows@);
    let mut out: Vec<UnindexedVaultDocument> = Vec::new();
    let mut k: usize = 0;
    proof {
        lemma_filter_ends(docs, loose);
        assert(out@ =~= unindexed(docs.subrange(0, 0).filter(loose)));
    }
    while k < documents.len()
        invariant
            k <= documents@.len(),
            docs == documents@,
            loose == is_unindexed(rows@),
            out@ == unindexed(docs.subrange(0, k as int).filter(loose)),
        decreases documents@.len() - k,
    {
        let doc: &ScannedDocument = &documents[k];
        let ghost before = out@;
        let ghost kept = docs.subrange(0, k as int).filter(loose);
        proof {
            lemma_filter_step(docs, loose, k as int);
        }
        if !record_known(rows, doc.sys_id.as_str()) {
            let item = UnindexedVaultDocument {
                sys_id: doc.sys_id.clone(),
                number: doc.number.clone(),
                relative_path: doc.relative_path.clone(),
            };
            out.push(item);
            assert(unindexed(kept.push(*doc)) =~= unindexed(kept).push(item));
        }
        k += 1;
    }
    assert(docs.subrange(0, k as int) =~= docs);
    VaultVerificationReport {
        scanned_documents: documents.len(),
        active_records: rows.len(),
        projections,
        degraded_reads,
        missing_markdown_rows: missing,
        orphan_record_rows: orphans,
        unprojectable_documents,
        unindexed_documents: out,
    }
}

/// Every record that lacks its file is an orphan, and an orphan that is not among
/// them names no file.
pub proof fn missing_files_make_orphans(row: CheckedRow)
    ensures
        lacks_its_file()(row) ==> is_orphan()(row),
        is_orphan()(row) && !lacks_its_file()(row) ==> row.file_path is None,
{
}

/// What is reported of a pruning. Where nothing is to be changed, nothing is
/// pruned.
pub fn prune_report(dry_run: bool, orphan_rows: Vec<OrphanRecordRow>) -> (r: OrphanPruneReport)
    ensures
        r.dry_run == dry_run,
        r.orphan_rows_scanned == orphan_rows@.len(),
        r.orphan_rows_pruned == (if dry_run {
            0
        } else {
            orphan_rows@.len()
        }),
        r.orphan_rows == orphan_rows,
{
    let scanned: usize = orphan_rows.len();
    OrphanPruneReport {
        dry_run,
        orphan_rows_scanned: scanned,
        orphan_rows_pruned: if dry_run {
            0
        } else {
            scanned
        },
        orphan_rows,
    }
}

// --- giving records their documents back ---

/// Records that name no file.
pub open spec fn needs_repair() -> spec_fn(RecordRow) -> bool {
    |row: RecordRow| row.file_path is None
}

/// The numbers of the records that are to be repaired.
pub fn repair_candidates(rows: &Vec<RecordRow>) -> (r: Vec<String>)
    ensures
        r@ == rows@.filter(needs_repair()).map_values(|row: RecordRow| row.number),
{
    let ghost all = rows@;
    let ghost keep = needs_repair();
    let mut out: Vec<String> = Vec::new();
    let mut i: usize = 0;
    proof {
        lemma_filter_ends(all, keep);
        assert(out@ =~= all.subrange(0, 0).filter(keep).map_values(|row: RecordRow| row.number));
    }
    while i < rows.len()
        invariant
            i <= rows@.len(),
            all == rows@,
            keep == needs_repair(),
            out@ == all.subrange(0, i as int).filter(keep).map_values(|row: RecordRow| row.number),
        decreases rows@.len() - i,
    {
        let ghost before = out@;
        let ghost kept = all.subrange(0, i as int).filter(keep);
        proof {
            lemma_filter_step(all, keep, i as int);
        }
        if rows[i].file_path.is_none() {
            let number: String = rows[i].number.clone();
            out.push(number);
            assert(kept.push(rows@[i as int]).map_values(|row: RecordRow| row.number)
                =~= before.push(number));
        }
        i += 1;
    }
    assert(all.subrange(0, i as int) =~= all);
    out
}

/// A record with what its document says.
pub fn repaired_row(row: RecordRow, entry: &VaultEntry) -> (r: RecordRow)
    ensures
        r.sys_id == row.sys_id,
        r.number == row.number,
        r.short_desc == Some(entry.short_description),
        r.description == Some(entry.description),
        r.assigned_to == entry.assigned_to,
        r.parent_id == entry.parent_sys_id,
        r.file_path == Some(entry.relative_path),
        r.raw_json == entry.raw_json,
{
    let fresh: RecordRow = row_from_entry(entry);
    RecordRow {
        sys_id: row.sys_id,
        number: row.number,
        short_desc: fresh.short_desc,
        description: fresh.description,
        assigned_to: fresh.assigned_to,
        parent_id: fresh.parent_id,
        file_path: fresh.file_path,
        raw_json: fresh.raw_json,
    }
}

/// How many of the answers are yes.
pub open spec fn yes_count(answers: Seq<bool>) -> nat
    decreases answers.len(),
{
    if answers.len() == 0 {
        0
    } else {
        yes_count(answers.drop_last()) + if answers.last() {
            1nat
        } else {
            0nat
        }
    }
}

/// What is reported of a repair: `loaded` says of each candidate whether its
/// document could be had.
pub fn repair_report(scanned_records: usize, loaded: &Vec<bool>) -> (r: RepairReport)
    ensures
        r.scanned_records == scanned_records,
        r.repaired_records == yes_count(loaded@),
        r.repaired_records + r.skipped_records == loaded@.len(),
{
    let mut repaired: usize = 0;
    let mut i: usize = 0;
    assert(loaded@.subrange(0, 0) =~= Seq::<bool>::empty());
    while i < loaded.len()
        invariant
            i <= loaded@.len(),
            repaired <= i,
            repaired == yes_count(loaded@.subrange(0, i as int)),
        decreases loaded@.len() - i,
    {
        proof {
            let longer = loaded@.subrange(0, i + 1);
            assert(longer.drop_last() =~= loaded@.subrange(0, i as int));
            assert(longer.last() == loaded@[i as int]);
        }
        if loaded[i] {
            repaired += 1;
        }
        i += 1;
    }
    assert(loaded@.subrange(0, i as int) =~= loaded@);
    RepairReport {
        scanned_records,
        repaired_records: repaired,
        skipped_records: loaded.len() - repaired,
    }
}

} // verus!
