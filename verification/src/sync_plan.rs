//! Which pass over the knowledge articles is due, and what it asks for.
use vstd::prelude::*;
use vstd::string::*;

use crate::knowledge_sync::{
    base_knowledge_query, determine_sync_mode, duration_readable, incremental_queries,
    knowledge_query, sync_mode, with_bodies, KbSyncState, KnowledgeSyncMode, Moment,
};
use crate::query::{query_views, Query, QueryView};
use crate::text::{text_of, text_of_ref};
use crate::user::borrowed;

verus! {

/// What a pass asks for, query by query.
pub struct SyncPlan {
    pub mode: KnowledgeSyncMode,
    pub with_bodies: bool,
    pub queries: Vec<Query>,
}

/// The queries of a pass. A full one asks for every article; an incremental one
/// for what is behind the watermark.
pub open spec fn plan_queries(
    mode: KnowledgeSyncMode,
    bodies: bool,
    updated_at: Option<Seq<char>>,
    sys_id: Option<Seq<char>>,
    filter: Option<Seq<char>>,
) -> Result<Seq<QueryView>, Seq<char>> {
    match mode {
        KnowledgeSyncMode::Full => match knowledge_query(bodies, filter) {
            Ok(q) => Ok(seq![q]),
            Err(e) => Err(e),
        },
        KnowledgeSyncMode::Incremental => match knowledge_query(true, filter) {
            Ok(q) => Ok(
                seq![
                    q.equals("sys_updated_on"@, updated_at->0).greater_than("sys_id"@, sys_id->0),
                    q.greater_than("sys_updated_on"@, updated_at->0),
                ],
            ),
            Err(e) => Err(e),
        },
    }
}

/// The mode of the pass that is due.
pub open spec fn due_mode(
    requested_full: bool,
    interval: Option<Seq<char>>,
    previous: KbSyncState,
    now: Moment,
) -> KnowledgeSyncMode {
    sync_mode(
        requested_full,
        interval,
        previous.last_full_at,
        (text_of(previous.watermark_updated_at), text_of(previous.watermark_sys_id)),
        now,
    )
}

/// Plans the pass that is due.
pub fn plan_sync(
    requested_full: bool,
    requested_bodies: bool,
    full_sync_interval: Option<&str>,
    previous: &KbSyncState,
    now: Moment,
    filter: Option<&str>,
) -> (r: Result<SyncPlan, String>)
    requires
        !requested_full && previous.watermark_updated_at is Some && previous.watermark_sys_id is Some
            && full_sync_interval is Some ==> duration_readable(full_sync_interval->0@),
    ensures
        ({
            let mode = due_mode(requested_full, text_of_ref(full_sync_interval), *previous, now);
            let bodies = requested_bodies || mode == KnowledgeSyncMode::Incremental;
            match plan_queries(
                mode,
                bodies,
                text_of(previous.watermark_updated_at),
                text_of(previous.watermark_sys_id),
                text_of_ref(filter),
            ) {
                Ok(queries) => r is Ok && r->Ok_0.mode == mode && r->Ok_0.with_bodies == bodies
                    && query_views(r->Ok_0.queries@) == queries,
                Err(e) => r is Err && r->Err_0@ == e,
            }
        }),
{
    let updated_at: Option<&str> = borrowed(&previous.watermark_updated_at);
    let sys_id: Option<&str> = borrowed(&previous.watermark_sys_id);
    let mode: KnowledgeSyncMode = determine_sync_mode(
        requested_full,
        full_sync_interval,
        previous.last_full_at,
        updated_at,
        sys_id,
        now,
    );
    let bodies: bool = with_bodies(requested_bodies, mode);
    let mut queries: Vec<Query> = Vec::new();
    match mode {
        KnowledgeSyncMode::Incremental => {
            if let (Some(at), Some(id)) = (updated_at, sys_id) {
                match incremental_queries(at, id, filter) {
                    Ok((same_time, newer)) => {
                        queries.push(same_time);
                        queries.push(newer);
                        assert(query_views(queries@) =~= seq![same_time@, newer@]);
                    },
                    Err(e) => {
                        return Err(e);
                    },
                }
            }
        },
        KnowledgeSyncMode::Full => match base_knowledge_query(bodies, filter) {
            Ok(q) => {
                queries.push(q);
                assert(query_views(queries@) =~= seq![q@]);
            },
            Err(e) => {
                return Err(e);
            },
        },
    }
    Ok(SyncPlan { mode, with_bodies: bodies, queries })
}

/// When the catalog was last brought up to date: by a full pass, else by an
/// incremental one, else now.
pub fn last_synced(state: &KbSyncState, now: Moment) -> (r: Moment)
    ensures
        r == (match state.last_full_at {
            Some(t) => t,
            None => match state.last_incr_at {
                Some(t) => t,
                None => now,
            },
        }),
{
    match state.last_full_at {
        Some(t) => t,
        None => match state.last_incr_at {
            Some(t) => t,
            None => now,
        },
    }
}

/// A pass is incremental only where there is a watermark to go on from.
pub proof fn incremental_passes_have_a_watermark(
    requested_full: bool,
    interval: Option<Seq<char>>,
    previous: KbSyncState,
    now: Moment,
)
    requires
        due_mode(requested_full, interval, previous, now) == KnowledgeSyncMode::Incremental,
    ensures
        !requested_full,
        previous.watermark_updated_at is Some,
        previous.watermark_sys_id is Some,
{
}

} // verus!
