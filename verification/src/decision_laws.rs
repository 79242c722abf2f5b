//! Laws of single decisions: each says for every case of what is known when a function is
//! called what it decides.
use vstd::prelude::*;

use crate::article::KnowledgeArticle;
use crate::catalog_request::{next_lookup, ItemLookup, LookupStep};
use crate::groups::{membership_step, MembershipStep};
use crate::incident_queue::{incident_sla_bucket, IncidentSlaBucket};
use crate::knowledge_refresh::{refresh_plan, RefreshPlan};
use crate::knowledge_service::pick_loaded;
use crate::knowledge_sync::{
    finish_sync, locked_outcome, KnowledgeSyncMode, KnowledgeSyncOutcome, Moment,
};
use crate::record_query::plan_parent_id;
use crate::row::{Failure, Row};
use crate::semantic::{route_search, EmbeddingProviderKind, KnowledgeSearchMode, SearchRoute};
use crate::server::{hydrated, kept_server, ServerGetError};
use crate::sync_plan::last_synced;
use crate::knowledge_sync::KbSyncState;
use crate::terms::next_auto_tags;
use crate::text::{text_of, trim};
use crate::timecard::{check_updated_card, judge_card_read, TimeCard};
use crate::types::{SearchMatchReason, SearchResult};
use crate::write_result::{IncidentWrite, IncidentWriteError};

verus! {

/// An item is looked for again where it was absent and at most three attempts have been
/// made; a failure ends the search at once.
pub proof fn items_are_looked_for_four_times(attempt: u32, outcome: ItemLookup, r: LookupStep)
    requires
        call_ensures(next_lookup, (attempt, outcome), r),
    ensures
        r == LookupStep::Take <==> outcome == ItemLookup::Found,
        r == LookupStep::Wait <==> outcome == ItemLookup::Absent && attempt + 1 <= 3,
        r == LookupStep::GiveUp <==> outcome == ItemLookup::Failed || (outcome
            == ItemLookup::Absent && attempt >= 3),
{
}

/// Memberships are read page by page up to the limit; more than that is too many.
pub proof fn memberships_are_read_up_to_the_limit(pages: usize, done: bool, r: MembershipStep)
    requires
        call_ensures(membership_step, (pages, done), r),
    ensures
        pages < 20 ==> r is Read,
        pages >= 20 && done ==> r is Stop,
        pages >= 20 && !done ==> r is TooMany,
{
}

/// A breach outweighs a risk, and nothing is told of times that cannot be read.
pub proof fn breaches_outweigh_risks(
    readable: bool,
    breached: usize,
    at_threshold: bool,
    r: IncidentSlaBucket,
)
    requires
        call_ensures(incident_sla_bucket, (readable, breached, at_threshold), r),
    ensures
        r == IncidentSlaBucket::Unavailable <==> !readable,
        r == IncidentSlaBucket::Breached <==> readable && breached >= 1,
        r == IncidentSlaBucket::AtRisk <==> readable && breached == 0 && at_threshold,
        r == IncidentSlaBucket::Healthy <==> readable && breached == 0 && !at_threshold,
{
}

/// A full pass counts every article anew. After an incremental one the numbers are dropped
/// where no article is left, counted anew where there are none yet, written back where
/// nothing changed, and else brought up to date.
pub proof fn refreshes_do_as_little_as_they_can(
    mode: KnowledgeSyncMode,
    active: usize,
    stats_empty: bool,
    nothing_changed: bool,
    r: RefreshPlan,
)
    requires
        call_ensures(refresh_plan, (mode, active, stats_empty, nothing_changed), r),
    ensures
        mode == KnowledgeSyncMode::Full ==> r is Full,
        mode == KnowledgeSyncMode::Incremental ==> {
            &&& r is Clear <==> active == 0
            &&& r is Full <==> active > 0 && stats_empty
            &&& r is StatsOnly <==> active > 0 && !stats_empty && nothing_changed
            &&& r is Incremental <==> active > 0 && !stats_empty && !nothing_changed
        },
{
}

/// An article is taken from the vault before the store, and from the store only where it is
/// the one that was looked for.
pub proof fn the_vault_comes_before_the_store(
    sys_id: &str,
    from_vault: Option<KnowledgeArticle>,
    from_store: Option<KnowledgeArticle>,
    r: Option<KnowledgeArticle>,
)
    requires
        call_ensures(pick_loaded, (sys_id, from_vault, from_store), r),
    ensures
        from_vault is Some ==> r == from_vault,
        from_vault is None && from_store is Some && from_store->0.record.sys_id@ == sys_id@
            ==> r == from_store,
        from_vault is None && (from_store is None || from_store->0.record.sys_id@ != sys_id@)
            ==> r is None,
{
}

/// A pass that finds the lock taken reports that it did nothing, as what it was asked for.
pub proof fn locked_passes_do_nothing(full: bool, bodies: bool, r: KnowledgeSyncOutcome)
    requires
        call_ensures(locked_outcome, (full, bodies), r),
    ensures
        !r.accepted,
        r.status@ == "locked"@,
        r.mode == KnowledgeSyncMode::Full <==> full,
        r.with_bodies == bodies,
        text_of(r.details) == Some("another KB sync is already in progress"@),
{
}

/// A pass succeeds only where its lock was released as well; no failure is lost.
pub proof fn passes_succeed_with_their_lock(
    result: Result<KnowledgeSyncOutcome, String>,
    release: Result<(), String>,
    r: Result<KnowledgeSyncOutcome, String>,
)
    requires
        call_ensures(finish_sync, (result, release), r),
    ensures
        r is Ok <==> result is Ok && release is Ok,
        r is Ok ==> r->Ok_0 == result->Ok_0,
        result is Err && release is Ok ==> r->Err_0 == result->Err_0,
        result is Ok && release is Err ==> r->Err_0 == release->Err_0,
        result is Err && release is Err ==> r->Err_0@ == result->Err_0@
            + "; failed to release KB sync lock: "@ + release->Err_0@,
{
}

/// A resource plan belongs to the record that was found for its number.
pub proof fn plans_belong_to_the_record_found(
    number: &str,
    found: Option<&Row>,
    r: Result<String, String>,
)
    requires
        call_ensures(plan_parent_id, (number, found), r),
    ensures
        r is Ok <==> found is Some,
        r is Ok ==> r->Ok_0 == found->0.sys_id,
        r is Err ==> r->Err_0@ == "resource_plan parent "@ + number@ + " was not found"@,
{
}

/// A search by words needs nothing else. Any other brings nothing where no text is left,
/// the one article where the text names it, and else needs a provider; without one, a search
/// in both ways may fall back to words, and is refused where it may not.
pub proof fn searches_need_a_provider(
    mode: KnowledgeSearchMode,
    nothing_left: bool,
    number: Option<String>,
    provider: Result<EmbeddingProviderKind, String>,
    fallback: bool,
    r: SearchRoute,
)
    requires
        call_ensures(route_search, (mode, nothing_left, number, provider, fallback), r),
    ensures
        mode == KnowledgeSearchMode::Lexical ==> r == SearchRoute::Lexical(
            KnowledgeSearchMode::Lexical,
        ),
        mode != KnowledgeSearchMode::Lexical ==> {
            &&& r is Nothing <==> nothing_left
            &&& r is Exact <==> !nothing_left && number is Some
            &&& r is Exact ==> r->Exact_0 == number->0
            &&& r is Semantic <==> !nothing_left && number is None && provider is Ok && mode
                == KnowledgeSearchMode::Semantic
            &&& r is Hybrid <==> !nothing_left && number is None && provider is Ok && mode
                == KnowledgeSearchMode::Hybrid
            &&& r is Lexical <==> !nothing_left && number is None && provider is Err && mode
                == KnowledgeSearchMode::Hybrid && fallback
            &&& r is Lexical ==> r->Lexical_0 == KnowledgeSearchMode::Hybrid
            &&& r is Refused <==> !nothing_left && number is None && provider is Err && (mode
                == KnowledgeSearchMode::Semantic || !fallback)
            &&& r is Refused ==> r->Refused_0 == provider->Err_0
        },
{
}

/// A server is given out as it was found; that it cannot be read, or could not be kept, is
/// told.
pub proof fn servers_are_given_out_as_found(
    row: Row,
    read: Result<(), String>,
    h: Result<Row, ServerGetError>,
    written: Option<Result<(), String>>,
    k: Result<Row, ServerGetError>,
)
    requires
        call_ensures(hydrated, (row, read), h),
        call_ensures(kept_server, (row, written), k),
    ensures
        h is Ok <==> read is Ok,
        h is Ok ==> h->Ok_0 == row,
        h is Err ==> h->Err_0 == ServerGetError::Hydration(read->Err_0),
        k is Err <==> written is Some && written->0 is Err,
        k is Ok ==> k->Ok_0 == row,
        k is Err ==> k->Err_0 == ServerGetError::Other(written->0->Err_0),
{
}

/// A full pass tells how old the catalog is, before an incremental one.
pub proof fn full_passes_tell_the_age(state: &KbSyncState, now: Moment, r: Moment)
    requires
        call_ensures(last_synced, (state, now), r),
    ensures
        state.last_full_at is Some ==> r == state.last_full_at->0,
        state.last_full_at is None && state.last_incr_at is Some ==> r == state.last_incr_at->0,
        state.last_full_at is None && state.last_incr_at is None ==> r == now,
{
}

/// Proposed tags take the place of those from the words, even where none was proposed.
pub proof fn proposed_tags_are_kept(
    derived: Vec<String>,
    proposed: Option<Vec<String>>,
    r: Vec<String>,
)
    requires
        call_ensures(next_auto_tags, (derived, proposed), r),
    ensures
        proposed is Some ==> r == proposed->0,
        proposed is None ==> r == derived,
{
}

/// That there is no card is no failure; every other failure is one.
pub proof fn missing_cards_are_no_failure(
    reply: Result<Row, Failure>,
    r: Result<Option<Row>, Failure>,
)
    requires
        call_ensures(judge_card_read, (reply,), r),
    ensures
        reply is Ok ==> r is Ok && r->Ok_0 == Some(reply->Ok_0),
        reply == Err::<Row, Failure>(Failure::Api(404)) <==> r is Ok && r->Ok_0 is None,
        r is Err ==> reply is Err && r->Err_0 == reply->Err_0,
{
}

/// A card that was changed is the one that is read again, under the same id.
pub proof fn changed_cards_are_read_again(
    updated: Option<&TimeCard>,
    sys_id: &str,
    r: Result<(), String>,
)
    requires
        call_ensures(check_updated_card, (updated, sys_id), r),
    ensures
        r is Ok <==> updated is Some && updated->0.sys_id@ == trim(sys_id@),
        updated is None ==> r->Err_0@ == "time card disappeared after update: "@ + sys_id@,
        updated is Some && r is Err ==> r->Err_0@ == "time card update refetched sys_id "@
            + updated->0.sys_id@ + ", expected "@ + sys_id@,
{
}

/// An explanation is added to a result, and changes nothing else of it.
pub proof fn explanations_are_added(
    before: SearchResult,
    matched: Option<String>,
    reasons: Vec<SearchMatchReason>,
    r: SearchResult,
)
    requires
        call_ensures(SearchResult::with_explanation, (before, matched, reasons), r),
    ensures
        r.matched_value == matched,
        r.reasons == reasons,
        r == (SearchResult { matched_value: r.matched_value, reasons: r.reasons, ..before }),
{
}

/// A write begins where there is a client for it, with the change itself; that there is none
/// is a failure before the provider was asked.
pub proof fn writes_need_a_client(configured: bool, r: Result<IncidentWrite, IncidentWriteError>)
    requires
        call_ensures(IncidentWrite::start, (configured,), r),
    ensures
        r is Ok <==> configured,
        r is Ok ==> r->Ok_0 is Patch,
        r is Err ==> r->Err_0 is Upstream && r->Err_0->Upstream_0@
            == "governed Incident write client is not configured"@,
{
}

/// A fault is told in its own words; one of this side says first that the change was
/// accepted.
pub proof fn faults_are_told_in_words(e: &IncidentWriteError, r: String)
    requires
        call_ensures(IncidentWriteError::message, (e,), r),
    ensures
        *e is Upstream ==> r@ == e->Upstream_0@,
        *e is LocalCoherence ==> r@
            == "local Incident coherence failed after ServiceNow accepted the PATCH: "@
            + e->LocalCoherence_0@,
{
}

} // verus!
