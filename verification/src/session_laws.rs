//! Laws of what is kept between calls: how long sessions live, how they are found again,
//! and how long documents are cut into pages and given back.
use vstd::prelude::*;
use vstd::utf8::{
    encode_utf8, encode_utf8_valid_utf8, is_char_boundary, is_char_boundary_start_end_of_seq,
    valid_utf8,
};

use crate::document::{
    delivered, fresh_document, hash_of, hex, holder, lemma_boundary_below, oldest_complete,
    page_cut, page_end, pages_make_progress, replayed, sha256, start_at, Delivery, DocumentPage,
    DocumentState, PageStart, ResolvedContent,
};
use crate::listing::lemma_filter_keeps;
use crate::record_error::{RecordResolveError, ResolveErrorView};
use crate::session::{live_entry, other_token, placed, tokens, Session, Sessions};

verus! {

/// A session is there for five minutes after its last use, and no longer.
pub proof fn sessions_live_for_five_minutes<S>(entries: Seq<Session<S>>, now: u64, e: Session<S>)
    ensures
        entries.filter(live_entry(now)).contains(e) <==> entries.contains(e) && now < e.touched
            + 300_000,
{
    lemma_filter_keeps(entries, live_entry(now));
}

/// A session is found by its token, and only where it carries it.
pub proof fn sessions_are_found_by_their_token<S>(s: Sessions<S>, token: Seq<char>, i: int)
    requires
        s.well_formed(),
        0 <= i < s.entries@.len(),
    ensures
        s.position(token) == Some(i) <==> s.entries@[i].token@ == token,
        s.position(token) is None ==> s.entries@[i].token@ != token,
{
    let all = tokens(s.entries@);
    assert(all[i] == s.entries@[i].token@);
    if all.contains(token) {
        let k = all.index_of(token);
        assert(0 <= k < all.len() && all[k] == token);
    }
}

/// A session that is ended is gone, and no other goes with it.
pub proof fn ended_sessions_are_gone<S>(entries: Seq<Session<S>>, token: Seq<char>, e: Session<S>)
    ensures
        entries.filter(other_token(token)).contains(e) <==> entries.contains(e) && e.token@
            != token,
{
    lemma_filter_keeps(entries, other_token(token));
}

/// A state that is kept is found under its token. What was under that token before is
/// gone, and everything else stays.
pub proof fn kept_states_are_found<S>(s: Sessions<S>, fresh: Session<S>, e: Session<S>)
    requires
        s.well_formed(),
    ensures
        placed(s, fresh).contains(fresh),
        e.token@ != fresh.token@ ==> (placed(s, fresh).contains(e) <==> s.entries@.contains(e)),
        e.token@ == fresh.token@ && e != fresh ==> !placed(s, fresh).contains(e),
{
    let all = tokens(s.entries@);
    let r = placed(s, fresh);
    if all.contains(fresh.token@) {
        let k = all.index_of(fresh.token@);
        assert(0 <= k < all.len() && all[k] == fresh.token@);
        assert(r[k] == fresh);
    } else {
        assert(r[s.entries@.len() as int] == fresh);
    }
    if s.entries@.contains(e) {
        let i = s.entries@.index_of(e);
        assert(all[i] == e.token@);
        if e.token@ != fresh.token@ {
            assert(r[i] == e);
        }
    }
    if r.contains(e) && e != fresh {
        let i = r.index_of(e);
        assert(r[i] == e);
        assert(s.entries@[i] == e);
        assert(all[i] == e.token@);
        if e.token@ == fresh.token@ {
            let k = all.index_of(fresh.token@);
            assert(all[k] == fresh.token@);
        }
    }
}

/// A byte is written as two hexadecimal digits, the more significant one first.
pub proof fn bytes_are_written_as_two_digits(bytes: Seq<u8>, i: int)
    requires
        0 <= i < bytes.len(),
    ensures
        hex(bytes).len() == 2 * bytes.len(),
        hex(bytes)[2 * i] == "0123456789abcdef"@[(bytes[i] / 16) as int],
        hex(bytes)[2 * i + 1] == "0123456789abcdef"@[(bytes[i] % 16) as int],
    decreases bytes.len(),
{
    reveal_strlit("0123456789abcdef");
    if i == bytes.len() - 1 {
        if bytes.len() > 1 {
            bytes_are_written_as_two_digits(bytes.drop_last(), 0);
        } else {
            assert(hex(bytes.drop_last()).len() == 0);
        }
    } else {
        bytes_are_written_as_two_digits(bytes.drop_last(), i);
    }
}

/// A document is recognised by the digits of its SHA-256 digest, behind the name of the
/// algorithm.
pub proof fn documents_are_recognised_by_their_digest(content: Seq<char>, i: int)
    requires
        0 <= i < sha256(encode_utf8(content)).len(),
    ensures
        ({
            let digest = sha256(encode_utf8(content));
            let h = hash_of(content);
            &&& h.len() == 7 + 2 * digest.len()
            &&& h.subrange(0, 7) == seq!['s', 'h', 'a', '2', '5', '6', ':']
            &&& h[7 + 2 * i] == "0123456789abcdef"@[(digest[i] / 16) as int]
            &&& h[8 + 2 * i] == "0123456789abcdef"@[(digest[i] % 16) as int]
        }),
{
    reveal_strlit("sha256:");
    bytes_are_written_as_two_digits(sha256(encode_utf8(content)), i);
    assert(hash_of(content).subrange(0, 7) =~= seq!['s', 'h', 'a', '2', '5', '6', ':']);
}

/// A page is as long as it can be: it holds at most 8192 bytes, and no character that would
/// still have room is left for the next page.
pub proof fn pages_are_filled(bytes: Seq<u8>, start: int, boundary: int)
    requires
        valid_utf8(bytes),
        0 <= start <= boundary <= bytes.len(),
        is_char_boundary(bytes, start),
        is_char_boundary(bytes, boundary),
    ensures
        start <= page_end(bytes, start) <= start + 8192,
        page_end(bytes, start) <= bytes.len(),
        is_char_boundary(bytes, page_end(bytes, start)),
        boundary <= start + 8192 ==> boundary <= page_end(bytes, start),
        bytes.len() <= start + 8192 ==> page_end(bytes, start) == bytes.len(),
{
    pages_make_progress(bytes, start);
    let at: int = if start + 8192 < bytes.len() {
        start + 8192
    } else {
        bytes.len() as int
    };
    if boundary <= at {
        lemma_boundary_below(bytes, at, boundary);
    }
    if at == bytes.len() {
        is_char_boundary_start_end_of_seq(bytes);
    }
}

/// A page that is cut begins where it was asked for and says how long the whole document
/// is. Its cursor stands for the page that begins where it ends; the last page has none,
/// and a document whose last page was cut counts as read.
pub proof fn pages_lead_to_the_next(
    before: DocumentState,
    after: DocumentState,
    page: DocumentPage,
    start: int,
    token: String,
)
    requires
        0 <= start <= before.bytes().len(),
        is_char_boundary(before.bytes(), start),
        page_cut(before, after, page, start, token),
    ensures
        ({
            let shown = encode_utf8(page.content@);
            let end = start + shown.len();
            &&& page.offset_bytes == start
            &&& page.byte_length == encode_utf8(before.content@).len()
            &&& page.content_hash == before.content_hash
            &&& page.sys_id == before.sys_id
            &&& page.table == before.table
            &&& page.resource_type == before.resource_type
            &&& end <= page.byte_length
            &&& shown == encode_utf8(before.content@).subrange(start, end)
            &&& page.cursor is None <==> end == page.byte_length
            &&& page.cursor is None ==> after.complete
            &&& page.cursor is Some ==> after.complete == before.complete && exists|i: int|
                {
                    &&& 0 <= i < after.starts@.len()
                    &&& (#[trigger] after.starts@[i]).token@ == page.cursor->0@
                    &&& after.starts@[i].offset == end
                }
            &&& after.content == before.content
            &&& after.sys_id == before.sys_id
        }),
{
    encode_utf8_valid_utf8(before.content@);
    pages_make_progress(before.bytes(), start);
    if page.cursor is Some {
        let end = page_end(before.bytes(), start);
        let i = choose|i: int| #[trigger]
            start_at(after.starts@, page.cursor->0@, i) && after.starts@[i].offset == end;
        assert(after.starts@[i].token@ == page.cursor->0@);
    }
}

/// A cursor keeps standing for its page when another page is cut.
pub proof fn cursors_are_kept(
    before: DocumentState,
    after: DocumentState,
    page: DocumentPage,
    start: int,
    token: String,
    i: int,
)
    requires
        page_cut(before, after, page, start, token),
        0 <= i < before.starts@.len(),
        before.starts@[i].token@ != token@,
    ensures
        i < after.starts@.len(),
        after.starts@[i] == before.starts@[i],
{
}

/// A cursor brings a page of a document that was used within the last five minutes, to the
/// identifier that the document belongs to; to another one it is refused. A cursor that
/// stands for no page of such a document is not answered here.
pub proof fn pages_go_to_their_identifier(
    before: Seq<Session<DocumentState>>,
    after: Seq<Session<DocumentState>>,
    cursor: Seq<char>,
    sys_id: Seq<char>,
    now: u64,
    token: String,
    r: Option<Result<DocumentPage, RecordResolveError>>,
    e: Session<DocumentState>,
    k: int,
)
    requires
        replayed(before, after, cursor, sys_id, now, token, r),
        before.contains(e),
        now < e.touched + 300_000,
        0 <= k < e.state.starts@.len(),
        e.state.starts@[k].token@ == cursor,
    ensures
        r is Some,
        r->0 is Ok ==> r->0->Ok_0.sys_id@ == sys_id && exists|d: Session<DocumentState>, n: int|
            {
                &&& #[trigger] before.contains(d)
                &&& now < d.touched + 300_000
                &&& d.state.sys_id@ == sys_id
                &&& #[trigger] start_at(d.state.starts@, cursor, n)
                &&& d.state.is_page(r->0->Ok_0, d.state.starts@[n].offset as int)
            },
        r->0 is Err ==> r->0->Err_0@ == ResolveErrorView::InvalidParams(
            "document cursor belongs to a different identifier"@,
        ) && exists|d: Session<DocumentState>|
            {
                &&& #[trigger] before.contains(d)
                &&& now < d.touched + 300_000
                &&& d.state.sys_id@ != sys_id
            },
{
    let live = before.filter(live_entry(now));
    lemma_filter_keeps(before, live_entry(now));
    assert(live.contains(e));
    let at = live.index_of(e);
    assert(live[at] == e);
    assert(start_at(live[at].state.starts@, cursor, k));
    if r is Some && r->0 is Err {
        let i = choose|i: int| #[trigger]
            holder(live, cursor, i) && live[i].state.sys_id@ != sys_id;
        assert(live.contains(live[i]));
        assert(before.contains(live[i]));
    } else if r is Some {
        let page = r->0->Ok_0;
        let (i, n) = choose|i: int, k: int| #[trigger]
            holder(live, cursor, i) && live[i].state.sys_id@ == sys_id && #[trigger] start_at(
                live[i].state.starts@,
                cursor,
                k,
            ) && page_cut(
                live[i].state,
                after[i].state,
                page,
                live[i].state.starts@[k].offset as int,
                token,
            ) && after.len() == live.len() && (forall|j: int|
                0 <= j < live.len() && j != i ==> after[j] == live[j]) && after[i].token
                == live[i].token && after[i].touched == now;
        assert(live.contains(live[i]));
        assert(before.contains(live[i]));
        assert(start_at(live[i].state.starts@, cursor, n));
    }
}

/// Answering a cursor drops the documents that have expired and no other. The document whose
/// page was given counts as used from now on; every other one stays as it was.
pub proof fn answered_documents_count_as_used(
    before: Seq<Session<DocumentState>>,
    after: Seq<Session<DocumentState>>,
    cursor: Seq<char>,
    sys_id: Seq<char>,
    now: u64,
    token: String,
    r: Option<Result<DocumentPage, RecordResolveError>>,
)
    requires
        replayed(before, after, cursor, sys_id, now, token, r),
    ensures
        ({
            let live = before.filter(live_entry(now));
            &&& after.len() == live.len()
            &&& r is None || r->0 is Err ==> after == live
            &&& r is Some && r->0 is Ok ==> exists|i: int|
                {
                    &&& 0 <= i < after.len()
                    &&& (#[trigger] after[i]).touched == now
                    &&& after[i].token == live[i].token
                    &&& after[i].state.content == live[i].state.content
                    &&& after[i].state.sys_id@ == sys_id
                    &&& forall|j: int|
                        0 <= j < live.len() && j != i ==> #[trigger] after[j] == live[j]
                }
        }),
{
    let live = before.filter(live_entry(now));
    if r is Some && r->0 is Ok {
        let page = r->0->Ok_0;
        let (i, n) = choose|i: int, k: int| #[trigger]
            holder(live, cursor, i) && live[i].state.sys_id@ == sys_id && #[trigger] start_at(
                live[i].state.starts@,
                cursor,
                k,
            ) && page_cut(
                live[i].state,
                after[i].state,
                page,
                live[i].state.starts@[k].offset as int,
                token,
            ) && after.len() == live.len() && (forall|j: int|
                0 <= j < live.len() && j != i ==> after[j] == live[j]) && after[i].token
                == live[i].token && after[i].touched == now;
        assert(after[i].touched == now);
    }
}

/// A record of up to 32768 bytes is answered whole and takes no session; one of more than
/// 16 MiB is refused. One in between is answered by its first page, if fewer than 32
/// sessions are live; the whole record is then kept under the token, beside all of those.
pub proof fn long_records_come_by_pages(
    before: Sessions<DocumentState>,
    after: Sessions<DocumentState>,
    record: ResolvedContent,
    discovery: Option<String>,
    now: u64,
    token: String,
    page_token: String,
    r: Result<Delivery, RecordResolveError>,
)
    requires
        delivered(before, after, record, discovery, now, token, page_token, r),
    ensures
        ({
            let length = encode_utf8(record.content@).len();
            let live = before.entries@.filter(live_entry(now));
            &&& length <= 32768 ==> after == before && r is Ok && r->Ok_0
                == Delivery::Inline(record)
            &&& length > 16_777_216 ==> after == before && r is Err && r->Err_0@
                == ResolveErrorView::Unavailable(
                "resolved document exceeds the 16 MiB session limit; no data was truncated"@,
            )
            &&& 32768 < length <= 16_777_216 && live.len() < 32 ==> r is Ok && r->Ok_0 is Paged && ({
                let page = r->Ok_0->Paged_0;
                &&& page.sys_id == record.sys_id
                &&& page.table == record.table
                &&& page.resource_type == record.resource_type
                &&& page.content_hash@ == hash_of(record.content@)
                &&& page.offset_bytes == 0
                &&& page.byte_length == length
                &&& page.cursor is Some
                &&& encode_utf8(page.content@).len() <= 8192
                &&& encode_utf8(page.content@) == encode_utf8(record.content@).subrange(
                    0,
                    encode_utf8(page.content@).len() as int,
                )
                &&& exists|e: Session<DocumentState>|
                    {
                        &&& #[trigger] after.entries@.contains(e)
                        &&& e.token == token
                        &&& e.touched == now
                        &&& e.state.content == record.content
                        &&& e.state.sys_id == record.sys_id
                        &&& !e.state.complete
                        &&& discovery is Some && discovery->0@ != page_token@
                            ==> e.state.starts@[0].token == discovery->0
                            && e.state.starts@[0].offset == 0
                    }
                &&& forall|e: Session<DocumentState>|
                    live.contains(e) && e.token@ != token@
                        ==> #[trigger] after.entries@.contains(e)
            })
        }),
{
    let length = encode_utf8(record.content@).len();
    let live = before.entries@.filter(live_entry(now));
    if 32768 < length <= 16_777_216 && live.len() < 32 {
        let room = choose|room: Sessions<DocumentState>|
            #![trigger room.well_formed()]
            {
                &&& room.well_formed()
                &&& crate::document::with_room(live, room.entries@)
                &&& if room.entries@.len() >= 32 {
                    r is Err
                } else {
                    &&& r matches Ok(Delivery::Paged(page))
                    &&& exists|fresh: DocumentState, state: DocumentState|
                        #![trigger fresh_document(record, discovery, fresh), placed(
                            room,
                            Session { token, touched: now, state },
                        )]
                        {
                            &&& fresh_document(record, discovery, fresh)
                            &&& page_cut(fresh, state, r->Ok_0->Paged_0, 0, page_token)
                            &&& after.entries@ == placed(
                                room,
                                Session { token, touched: now, state },
                            )
                        }
                }
            };
        assert(room.entries@ == live);
        let (fresh, state) = choose|fresh: DocumentState, state: DocumentState|
            #![trigger fresh_document(record, discovery, fresh), placed(
                room,
                Session { token, touched: now, state },
            )]
            {
                &&& fresh_document(record, discovery, fresh)
                &&& page_cut(fresh, state, r->Ok_0->Paged_0, 0, page_token)
                &&& after.entries@ == placed(room, Session { token, touched: now, state })
            };
        let page = r->Ok_0->Paged_0;
        let kept = Session { token, touched: now, state };
        encode_utf8_valid_utf8(record.content@);
        pages_make_progress(fresh.bytes(), 0);
        pages_lead_to_the_next(fresh, state, page, 0, page_token);
        kept_states_are_found(room, kept, kept);
        assert(after.entries@.contains(kept));
        if discovery is Some && discovery->0@ != page_token@ {
            assert(fresh.starts@ == seq![PageStart { token: discovery->0, offset: 0 }]);
            assert(fresh.starts@[0].token@ != page_token@);
            cursors_are_kept(fresh, state, page, 0, page_token, 0);
        }
        assert forall|e: Session<DocumentState>|
            live.contains(e) && e.token@ != token@ implies #[trigger] after.entries@.contains(e) by {
            kept_states_are_found(room, kept, e);
        }
    }
}

/// Where 32 sessions are live, a long record takes the place of a finished document, of the
/// one that was last used longest ago; where no document is finished, it is refused.
pub proof fn finished_documents_give_way(
    before: Sessions<DocumentState>,
    after: Sessions<DocumentState>,
    record: ResolvedContent,
    discovery: Option<String>,
    now: u64,
    token: String,
    page_token: String,
    r: Result<Delivery, RecordResolveError>,
)
    requires
        delivered(before, after, record, discovery, now, token, page_token, r),
        32768 < encode_utf8(record.content@).len() <= 16_777_216,
        before.entries@.filter(live_entry(now)).len() == 32,
    ensures
        ({
            let live = before.entries@.filter(live_entry(now));
            let some_finished = exists|i: int|
                0 <= i < 32 && (#[trigger] live[i]).state.complete;
            &&& !some_finished ==> r is Err && r->Err_0@ == ResolveErrorView::Unavailable(
                "resolved document sessions are at capacity"@,
            ) && after.entries@ == live
            &&& some_finished ==> r is Ok && exists|i: int|
                {
                    &&& 0 <= i < 32
                    &&& (#[trigger] live[i]).state.complete
                    &&& forall|j: int|
                        0 <= j < 32 && (#[trigger] live[j]).state.complete ==> live[i].touched
                            <= live[j].touched
                    &&& forall|j: int|
                        0 <= j < 32 && j != i && (#[trigger] live[j]).token@ != token@
                            ==> after.entries@.contains(live[j])
                }
        }),
{
    let live = before.entries@.filter(live_entry(now));
    let room = choose|room: Sessions<DocumentState>|
        #![trigger room.well_formed()]
        {
            &&& room.well_formed()
            &&& crate::document::with_room(live, room.entries@)
            &&& if room.entries@.len() >= 32 {
                r is Err && r->Err_0@ == crate::document::no_room() && after.entries == room.entries
            } else {
                &&& r matches Ok(Delivery::Paged(page))
                &&& exists|fresh: DocumentState, state: DocumentState|
                    #![trigger fresh_document(record, discovery, fresh), placed(
                        room,
                        Session { token, touched: now, state },
                    )]
                    {
                        &&& fresh_document(record, discovery, fresh)
                        &&& page_cut(fresh, state, r->Ok_0->Paged_0, 0, page_token)
                        &&& after.entries@ == placed(
                            room,
                            Session { token, touched: now, state },
                        )
                    }
            }
        };
    if exists|i: int| 0 <= i < 32 && (#[trigger] live[i]).state.complete {
        let i = choose|i: int| #[trigger]
            oldest_complete(live, i) && room.entries@ == live.remove(i);
        assert(live[i].state.complete);
        let (fresh, state) = choose|fresh: DocumentState, state: DocumentState|
            #![trigger fresh_document(record, discovery, fresh), placed(
                room,
                Session { token, touched: now, state },
            )]
            {
                &&& fresh_document(record, discovery, fresh)
                &&& page_cut(fresh, state, r->Ok_0->Paged_0, 0, page_token)
                &&& after.entries@ == placed(room, Session { token, touched: now, state })
            };
        assert forall|j: int|
            0 <= j < 32 && j != i && (#[trigger] live[j]).token@ != token@ implies after.entries@.contains(
            live[j],
        ) by {
            if j < i {
                assert(room.entries@[j] == live[j]);
            } else {
                assert(room.entries@[j - 1] == live[j]);
            }
            kept_states_are_found(room, Session { token, touched: now, state }, live[j]);
        }
    }
}

} // verus!
