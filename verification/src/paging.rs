//! What holds of a long document from its delivery to its last page, over the
//! calls by which it is read.
use vstd::prelude::*;
use vstd::utf8::*;

use crate::document::{
    delivered, documents_ok, first_starts, fresh_document, has_start, has_token,
    hash_of, holder, oldest_complete, page_cut, page_end, pages_make_progress, replayed, start_at, with_room,
    Delivery, DocumentPage, DocumentState, ResolvedContent, INLINE_BYTES,
    MAX_SESSIONS,
};
use crate::record_error::RecordResolveError;
use crate::session::{
    is_live, lemma_filter_keeps_distinct, live_entry, placed, tokens, Session, Sessions,
};

verus! {

/// No kept document knows the token.
pub open spec fn unknown(entries: Seq<Session<DocumentState>>, token: Seq<char>) -> bool {
    forall|j: int| 0 <= j < entries.len() ==> !has_token((#[trigger] entries[j]).state.starts@, token)
}

/// The tokens that stand for pages behind the first one stand for no page of
/// another document.
pub open spec fn owns_tokens(entries: Seq<Session<DocumentState>>, i: int) -> bool {
    forall|j: int, k: int|
        #![trigger entries[j], entries[i].state.starts@[k]]
        0 <= j < entries.len() && entries[j].token@ != entries[i].token@ && 0 <= k
            < entries[i].state.starts@.len() && entries[i].state.starts@[k].offset > 0
            ==> !has_token(entries[j].state.starts@, entries[i].state.starts@[k].token@)
}

/// A document is the record written out.
pub open spec fn holds(state: DocumentState, record: ResolvedContent) -> bool {
    &&& state.sys_id == record.sys_id
    &&& state.table == record.table
    &&& state.resource_type == record.resource_type
    &&& state.content == record.content
    &&& state.content_hash@ == hash_of(record.content@)
}

/// The record is being read: its document is kept as the `i`-th, `page` is a page
/// of it, and the cursor of that page stands for the page behind it.
pub open spec fn reading(
    entries: Seq<Session<DocumentState>>,
    i: int,
    record: ResolvedContent,
    page: DocumentPage,
) -> bool {
    &&& tokens(entries).no_duplicates()
    &&& 0 <= i < entries.len()
    &&& holds(entries[i].state, record)
    &&& entries[i].state.well_formed()
    &&& owns_tokens(entries, i)
    &&& page.offset_bytes <= entries[i].state.bytes().len()
    &&& is_char_boundary(entries[i].state.bytes(), page.offset_bytes as int)
    &&& entries[i].state.is_page(page, page.offset_bytes as int)
    &&& page.cursor is Some ==> exists|k: int| #[trigger]
        start_at(entries[i].state.starts@, page.cursor->0@, k)
            && entries[i].state.starts@[k].offset == page_end(
            entries[i].state.bytes(),
            page.offset_bytes as int,
        )
}

/// The first page of a long record begins at its beginning, and its cursor stands
/// for the page behind it.
pub proof fn deliveries_begin_documents(
    before: Sessions<DocumentState>,
    after: Sessions<DocumentState>,
    record: ResolvedContent,
    discovery_cursor: Option<String>,
    now: u64,
    token: String,
    page_token: String,
    page: DocumentPage,
)
    requires
        before.well_formed(),
        after.well_formed(),
        documents_ok(after.entries@),
        delivered(
            before,
            after,
            record,
            discovery_cursor,
            now,
            token,
            page_token,
            Ok(Delivery::Paged(page)),
        ),
        unknown(before.entries@, page_token@),
        discovery_cursor is Some ==> discovery_cursor->0@ != page_token@,
    ensures
        page.offset_bytes == 0,
        exists|i: int| #[trigger]
            reading(after.entries@, i, record, page) && after.entries@[i].touched == now,
{
    let live = before.entries@.filter(live_entry(now));
    let room = choose|room: Sessions<DocumentState>|
        #![trigger room.well_formed()]
        {
            &&& room.well_formed()
            &&& with_room(live, room.entries@)
            &&& exists|fresh: DocumentState, state: DocumentState|
                #![trigger fresh_document(record, discovery_cursor, fresh), placed(
                    room,
                    Session { token, touched: now, state },
                )]
                {
                    &&& fresh_document(record, discovery_cursor, fresh)
                    &&& page_cut(fresh, state, page, 0, page_token)
                    &&& after.entries@ == placed(room, Session { token, touched: now, state })
                }
        };
    let (fresh, state) = choose|fresh: DocumentState, state: DocumentState|
        #![trigger fresh_document(record, discovery_cursor, fresh), placed(
            room,
            Session { token, touched: now, state },
        )]
        {
            &&& fresh_document(record, discovery_cursor, fresh)
            &&& page_cut(fresh, state, page, 0, page_token)
            &&& after.entries@ == placed(room, Session { token, touched: now, state })
        };
    lemma_unknown_in_live(before.entries@, now, page_token@);
    assert(unknown(room.entries@, page_token@)) by {
        assert forall|j: int| 0 <= j < room.entries@.len() implies !has_token(
            (#[trigger] room.entries@[j]).state.starts@,
            page_token@,
        ) by {
            assert(live.contains(room.entries@[j]));
        }
    }
    let i = match room.position(token@) {
        Some(p) => p,
        None => room.entries@.len() as int,
    };
    let bytes = state.bytes();
    encode_utf8_valid_utf8(state.content@);
    is_char_boundary_start_end_of_seq(bytes);
    pages_make_progress(bytes, 0);
    let end = page_end(bytes, 0);
    let starts0 = first_starts(discovery_cursor);
    assert(page.cursor is Some);
    assert(!has_start(starts0, end));
    assert(!has_token(starts0, page_token@));
    assert(after.entries@[i] == Session { token, touched: now, state });
    assert forall|j: int, k: int|
        #![trigger after.entries@[j], after.entries@[i].state.starts@[k]]
        0 <= j < after.entries@.len() && after.entries@[j].token@ != token@ && 0 <= k
            < state.starts@.len() && state.starts@[k].offset > 0 implies !has_token(
        after.entries@[j].state.starts@,
        state.starts@[k].token@,
    ) by {
        assert(j != i);
        assert(after.entries@[j] == room.entries@[j]);
        assert(state.starts@[k].token == page_token);
    }
    assert(reading(after.entries@, i, record, page));
}

proof fn lemma_unknown_in_live(entries: Seq<Session<DocumentState>>, now: u64, token: Seq<char>)
    requires
        unknown(entries, token),
    ensures
        unknown(entries.filter(live_entry(now)), token),
{
    let live = entries.filter(live_entry(now));
    crate::listing::lemma_filter_sound(entries, live_entry(now));
    assert forall|j: int| 0 <= j < live.len() implies !has_token(
        (#[trigger] live[j]).state.starts@,
        token,
    ) by {
        assert(entries.contains(live[j]));
    }
}

/// A session that is kept among the live ones is the one under its token.
proof fn lemma_live_session(entries: Seq<Session<DocumentState>>, now: u64, i: int)
    requires
        tokens(entries).no_duplicates(),
        0 <= i < entries.len(),
    ensures
        tokens(entries.filter(live_entry(now))).no_duplicates(),
        forall|j: int|
            0 <= j < entries.filter(live_entry(now)).len() && (#[trigger] entries.filter(
                live_entry(now),
            )[j]).token@ == entries[i].token@ ==> is_live(entries[i].touched, now)
                && entries.filter(live_entry(now))[j] == entries[i],
        is_live(entries[i].touched, now) ==> exists|j: int|
            0 <= j < entries.filter(live_entry(now)).len() && #[trigger] entries.filter(
                live_entry(now),
            )[j] == entries[i],
{
    let live = entries.filter(live_entry(now));
    lemma_filter_keeps_distinct(entries, live_entry(now));
    crate::listing::lemma_filter_sound(entries, live_entry(now));
    assert forall|j: int|
        0 <= j < live.len() && (#[trigger] live[j]).token@ == entries[i].token@ implies is_live(
        entries[i].touched,
        now,
    ) && live[j] == entries[i] by {
        assert(entries.contains(live[j]));
        let m = choose|m: int| 0 <= m < entries.len() && entries[m] == live[j];
        assert(tokens(entries)[m] == tokens(entries)[i]);
    }
    if is_live(entries[i].touched, now) {
        assert(entries.contains(entries[i]));
        crate::listing::lemma_filter_complete(entries, live_entry(now), entries[i]);
    }
}

/// The cursor of a page brings the page that begins where that page ended, for as
/// long as the document is kept, and nothing once it is not. The page that comes is
/// again one whose cursor leads on. The token that may be minted for it must be
/// one that no kept document knows.
pub proof fn cursors_lead_to_the_next_page(
    before: Seq<Session<DocumentState>>,
    i: int,
    record: ResolvedContent,
    page: DocumentPage,
    after: Seq<Session<DocumentState>>,
    now: u64,
    token: String,
    r: Option<Result<DocumentPage, RecordResolveError>>,
)
    requires
        reading(before, i, record, page),
        page.cursor is Some,
        replayed(before, after, page.cursor->0@, record.sys_id@, now, token, r),
        documents_ok(after),
        unknown(before, token@),
    ensures
        is_live(before[i].touched, now) ==> r is Some && r->0 is Ok,
        !is_live(before[i].touched, now) ==> r is None,
        r matches Some(Ok(next)) ==> next.offset_bytes == page.offset_bytes + encode_utf8(
            page.content@,
        ).len() && exists|n: int| #[trigger]
            reading(after, n, record, next) && after[n].touched == now,
{
    let live = before.filter(live_entry(now));
    let c = page.cursor->0@;
    let state = before[i].state;
    let bytes = state.bytes();
    let start = page.offset_bytes as int;
    encode_utf8_valid_utf8(state.content@);
    is_char_boundary_start_end_of_seq(bytes);
    pages_make_progress(bytes, start);
    let end = page_end(bytes, start);
    let at = choose|k: int| #[trigger] start_at(state.starts@, c, k) && state.starts@[k].offset == end;
    assert(start_at(state.starts@, c, at) && state.starts@[at].offset == end);
    assert(end > 0);
    lemma_live_session(before, now, i);
    lemma_unknown_in_live(before, now, token@);
    crate::listing::lemma_filter_sound(before, live_entry(now));
    // Whoever knows the cursor is the document itself.
    assert forall|j: int| 0 <= j < live.len() && has_token(
        (#[trigger] live[j]).state.starts@,
        c,
    ) implies live[j] == before[i] by {
        assert(before.contains(live[j]));
        let m = choose|m: int| 0 <= m < before.len() && before[m] == live[j];
        if before[m].token@ != before[i].token@ {
            assert(!has_token(before[m].state.starts@, state.starts@[at].token@));
        }
    }
    if is_live(before[i].touched, now) {
        let n = choose|j: int| 0 <= j < live.len() && #[trigger] live[j] == before[i];
        assert(has_token(live[n].state.starts@, c));
    }
    if let Some(Ok(next)) = r {
        lemma_next_page(before, live, i, record, after, now, token, next, c, at);
        assert(page.offset_bytes + encode_utf8(page.content@).len() == end);
    }
}

proof fn lemma_next_page(
    before: Seq<Session<DocumentState>>,
    live: Seq<Session<DocumentState>>,
    i: int,
    record: ResolvedContent,
    after: Seq<Session<DocumentState>>,
    now: u64,
    token: String,
    next: DocumentPage,
    c: Seq<char>,
    at: int,
)
    requires
        live == before.filter(live_entry(now)),
        tokens(before).no_duplicates(),
        tokens(live).no_duplicates(),
        0 <= i < before.len(),
        holds(before[i].state, record),
        before[i].state.well_formed(),
        owns_tokens(before, i),
        start_at(before[i].state.starts@, c, at),
        replayed(before, after, c, record.sys_id@, now, token, Some(Ok(next))),
        documents_ok(after),
        unknown(live, token@),
        forall|j: int|
            0 <= j < live.len() && has_token((#[trigger] live[j]).state.starts@, c) ==> live[j]
                == before[i],
    ensures
        next.offset_bytes == before[i].state.starts@[at].offset,
        exists|n: int| #[trigger] reading(after, n, record, next) && after[n].touched == now,
{
    let state = before[i].state;
    let (n, k) = choose|n: int, k: int| #[trigger]
        holder(live, c, n) && live[n].state.sys_id@ == record.sys_id@ && #[trigger] start_at(
            live[n].state.starts@,
            c,
            k,
        ) && page_cut(
            live[n].state,
            after[n].state,
            next,
            live[n].state.starts@[k].offset as int,
            token,
        ) && after.len() == live.len() && (forall|j: int|
            0 <= j < live.len() && j != n ==> after[j] == live[j]) && after[n].token
            == live[n].token && after[n].touched == now;
    assert(live[n] == before[i]);
    assert(k == at);
    let start = state.starts@[at].offset as int;
    let cut = after[n].state;
    assert(tokens(after) =~= tokens(live));
    encode_utf8_valid_utf8(state.content@);
    is_char_boundary_start_end_of_seq(state.bytes());
    pages_make_progress(state.bytes(), start);
    let end = page_end(state.bytes(), start);
    crate::listing::lemma_filter_sound(before, live_entry(now));
    assert(unknown(live, token@));
    assert(!has_token(live[n].state.starts@, token@));
    assert forall|j: int, m: int|
        #![trigger after[j], after[n].state.starts@[m]]
        0 <= j < after.len() && after[j].token@ != after[n].token@ && 0 <= m < cut.starts@.len()
            && cut.starts@[m].offset > 0 implies !has_token(
        after[j].state.starts@,
        cut.starts@[m].token@,
    ) by {
        assert(j != n && after[j] == live[j]);
        assert(before.contains(live[j]));
        let o = choose|o: int| 0 <= o < before.len() && before[o] == live[j];
        if m < state.starts@.len() {
            assert(cut.starts@[m] == state.starts@[m]);
            assert(!has_token(before[o].state.starts@, state.starts@[m].token@));
        } else {
            assert(cut.starts@[m].token == token);
            assert(!has_token(live[j].state.starts@, token@));
        }
    }
    assert(after[n].state.well_formed());
    assert(reading(after, n, record, next));
}

/// The texts of some pages, one behind the other.
pub open spec fn text_of_pages(pages: Seq<DocumentPage>) -> Seq<char>
    decreases pages.len(),
{
    if pages.len() == 0 {
        Seq::empty()
    } else {
        pages[0].content@ + text_of_pages(pages.drop_first())
    }
}

/// Each page was brought by the cursor of the page before it; `stores` are the
/// documents that were kept after each page, and `minted` the tokens that were at
/// hand.
pub open spec fn followed(
    sys_id: Seq<char>,
    stores: Seq<Seq<Session<DocumentState>>>,
    pages: Seq<DocumentPage>,
    times: Seq<u64>,
    minted: Seq<String>,
) -> bool {
    &&& pages.len() > 0
    &&& stores.len() == pages.len()
    &&& forall|n: int|
        0 <= n < pages.len() - 1 ==> (#[trigger] pages[n]).cursor is Some && replayed(
            stores[n],
            stores[n + 1],
            pages[n].cursor->0@,
            sys_id,
            times[n],
            minted[n],
            Some(Ok(pages[n + 1])),
        ) && documents_ok(stores[n + 1]) && unknown(stores[n], minted[n]@)
}

/// Whoever follows the cursors of a long record from its delivery to its last page
/// has read the record, the whole of it and nothing else; and every page carries
/// its identity, its hash and its length. The tokens that were minted on the way
/// must be ones that no kept document knew.
pub proof fn documents_are_read_whole(
    before: Sessions<DocumentState>,
    after: Sessions<DocumentState>,
    record: ResolvedContent,
    discovery_cursor: Option<String>,
    now: u64,
    token: String,
    page_token: String,
    stores: Seq<Seq<Session<DocumentState>>>,
    pages: Seq<DocumentPage>,
    times: Seq<u64>,
    minted: Seq<String>,
)
    requires
        before.well_formed(),
        after.well_formed(),
        documents_ok(after.entries@),
        followed(record.sys_id@, stores, pages, times, minted),
        delivered(
            before,
            after,
            record,
            discovery_cursor,
            now,
            token,
            page_token,
            Ok(Delivery::Paged(pages[0])),
        ),
        stores[0] == after.entries@,
        pages.last().cursor is None,
        unknown(before.entries@, page_token@),
        discovery_cursor is Some ==> discovery_cursor->0@ != page_token@,
    ensures
        text_of_pages(pages) == record.content@,
        forall|n: int|
            0 <= n < pages.len() ==> (#[trigger] pages[n]).sys_id == record.sys_id
                && pages[n].table == record.table && pages[n].resource_type
                == record.resource_type && pages[n].content_hash@ == hash_of(record.content@)
                && pages[n].byte_length == encode_utf8(record.content@).len(),
{
    deliveries_begin_documents(
        before,
        after,
        record,
        discovery_cursor,
        now,
        token,
        page_token,
        pages[0],
    );
    let i = choose|i: int| #[trigger]
        reading(after.entries@, i, record, pages[0]) && after.entries@[i].touched == now;
    lemma_read_from(record, stores, pages, times, minted, 0, i);
    let bytes = encode_utf8(record.content@);
    assert(pages.subrange(0, pages.len() as int) =~= pages);
    assert(bytes.subrange(0, bytes.len() as int) =~= bytes);
    encode_utf8_decode_utf8(record.content@);
}

proof fn lemma_read_from(
    record: ResolvedContent,
    stores: Seq<Seq<Session<DocumentState>>>,
    pages: Seq<DocumentPage>,
    times: Seq<u64>,
    minted: Seq<String>,
    n: int,
    i: int,
)
    requires
        followed(record.sys_id@, stores, pages, times, minted),
        pages.last().cursor is None,
        0 <= n < pages.len(),
        reading(stores[n], i, record, pages[n]),
    ensures
        ({
            let bytes = encode_utf8(record.content@);
            text_of_pages(pages.subrange(n, pages.len() as int)) == decode_utf8(
                bytes.subrange(pages[n].offset_bytes as int, bytes.len() as int),
            )
        }),
        forall|m: int|
            n <= m < pages.len() ==> (#[trigger] pages[m]).sys_id == record.sys_id
                && pages[m].table == record.table && pages[m].resource_type
                == record.resource_type && pages[m].content_hash@ == hash_of(record.content@)
                && pages[m].byte_length == encode_utf8(record.content@).len(),
    decreases pages.len() - n,
{
    let bytes = encode_utf8(record.content@);
    let page = pages[n];
    let start = page.offset_bytes as int;
    let end = page_end(bytes, start);
    let rest = bytes.subrange(start, bytes.len() as int);
    let tail = pages.subrange(n, pages.len() as int);
    encode_utf8_valid_utf8(record.content@);
    is_char_boundary_start_end_of_seq(bytes);
    pages_make_progress(bytes, start);
    valid_utf8_split(bytes, start);
    encode_utf8_decode_utf8(page.content@);
    assert(tail[0] == page);
    assert(tail.drop_first() =~= pages.subrange(n + 1, pages.len() as int));
    if n == pages.len() - 1 {
        assert(tail.drop_first() =~= Seq::empty());
        assert(text_of_pages(tail.drop_first()) =~= Seq::empty());
        assert(page.content@ + Seq::<char>::empty() =~= page.content@);
    } else {
        assert(pages[n].cursor is Some);
        cursors_lead_to_the_next_page(
            stores[n],
            i,
            record,
            page,
            stores[n + 1],
            times[n],
            minted[n],
            Some(Ok(pages[n + 1])),
        );
        let m = choose|m: int| #[trigger]
            reading(stores[n + 1], m, record, pages[n + 1]) && stores[n + 1][m].touched == times[n];
        lemma_read_from(record, stores, pages, times, minted, n + 1, m);
        assert(pages[n + 1].offset_bytes == end);
        assert(is_char_boundary(rest, end - start)) by {
            if end < bytes.len() {
                assert(rest[end - start] == bytes[end]);
                is_char_boundary_iff_not_is_continuation_byte(bytes, end);
                is_char_boundary_iff_not_is_continuation_byte(rest, end - start);
            } else {
                is_char_boundary_start_end_of_seq(rest);
            }
        }
        decode_utf8_split(rest, end - start);
        assert(rest.subrange(0, end - start) =~= bytes.subrange(start, end));
        assert(rest.subrange(end - start, rest.len() as int) =~= bytes.subrange(
            end,
            bytes.len() as int,
        ));
    }
}

/// A document that is being read stays so, whatever page of whatever document is
/// asked for in between.
pub proof fn replays_disturb_no_reader(
    before: Seq<Session<DocumentState>>,
    i: int,
    record: ResolvedContent,
    page: DocumentPage,
    after: Seq<Session<DocumentState>>,
    cursor: Seq<char>,
    sys_id: Seq<char>,
    now: u64,
    token: String,
    r: Option<Result<DocumentPage, RecordResolveError>>,
)
    requires
        reading(before, i, record, page),
        is_live(before[i].touched, now),
        replayed(before, after, cursor, sys_id, now, token, r),
        documents_ok(after),
        unknown(before, token@),
    ensures
        exists|n: int| #[trigger] reading(after, n, record, page),
{
    let live = before.filter(live_entry(now));
    lemma_live_session(before, now, i);
    lemma_unknown_in_live(before, now, token@);
    let n = choose|n: int| 0 <= n < live.len() && #[trigger] live[n] == before[i];
    lemma_live_reading(before, i, record, page, now, n);
    match r {
        Some(Ok(given)) => {
            let (h, k) = choose|h: int, k: int| #[trigger]
                holder(live, cursor, h) && live[h].state.sys_id@ == sys_id && #[trigger] start_at(
                    live[h].state.starts@,
                    cursor,
                    k,
                ) && page_cut(
                    live[h].state,
                    after[h].state,
                    given,
                    live[h].state.starts@[k].offset as int,
                    token,
                ) && after.len() == live.len() && (forall|j: int|
                    0 <= j < live.len() && j != h ==> after[j] == live[j]) && after[h].token
                    == live[h].token && after[h].touched == now;
            assert(tokens(after) =~= tokens(live));
            assert(tokens(live)[n] == live[n].token@);
            assert(!has_token(live[h].state.starts@, token@));
            assert(after[n].state.well_formed());
            assert forall|j: int, m: int|
                #![trigger after[j], after[n].state.starts@[m]]
                0 <= j < after.len() && after[j].token@ != after[n].token@ && 0 <= m
                    < after[n].state.starts@.len() && after[n].state.starts@[m].offset
                    > 0 implies !has_token(
                after[j].state.starts@,
                after[n].state.starts@[m].token@,
            ) by {
                let t = after[n].state.starts@[m].token@;
                assert(live[j].token@ != live[n].token@);
                if m < live[n].state.starts@.len() {
                    assert(after[n].state.starts@[m] == live[n].state.starts@[m]);
                    assert(!has_token(live[j].state.starts@, live[n].state.starts@[m].token@));
                    assert(t != token@) by {
                        assert(!has_token(live[n].state.starts@, token@));
                        assert(start_at(live[n].state.starts@, t, m));
                    }
                    if j == h && has_token(after[j].state.starts@, t) {
                        let q = choose|q: int| #[trigger] start_at(after[j].state.starts@, t, q);
                        assert(start_at(live[j].state.starts@, t, q));
                    }
                } else {
                    assert(n == h && j != h);
                    assert(!has_token(live[j].state.starts@, token@));
                }
            }
            if page.cursor is Some {
                let c = page.cursor->0@;
                let end = page_end(live[n].state.bytes(), page.offset_bytes as int);
                let q = choose|q: int| #[trigger]
                    start_at(live[n].state.starts@, c, q) && live[n].state.starts@[q].offset == end;
                assert(start_at(after[n].state.starts@, c, q) && after[n].state.starts@[q].offset
                    == end);
            }
            assert(reading(after, n, record, page));
        },
        _ => {
            assert(reading(after, n, record, page));
        },
    }
}

/// What is being read is being read among the live documents.
proof fn lemma_live_reading(
    entries: Seq<Session<DocumentState>>,
    i: int,
    record: ResolvedContent,
    page: DocumentPage,
    now: u64,
    n: int,
)
    requires
        reading(entries, i, record, page),
        0 <= n < entries.filter(live_entry(now)).len(),
        entries.filter(live_entry(now))[n] == entries[i],
    ensures
        reading(entries.filter(live_entry(now)), n, record, page),
{
    let live = entries.filter(live_entry(now));
    lemma_live_session(entries, now, i);
    crate::listing::lemma_filter_sound(entries, live_entry(now));
    assert forall|j: int, k: int|
        #![trigger live[j], live[n].state.starts@[k]]
        0 <= j < live.len() && live[j].token@ != live[n].token@ && 0 <= k
            < live[n].state.starts@.len() && live[n].state.starts@[k].offset > 0 implies !has_token(
        live[j].state.starts@,
        live[n].state.starts@[k].token@,
    ) by {
        assert(entries.contains(live[j]));
        let m = choose|m: int| 0 <= m < entries.len() && entries[m] == live[j];
        assert(!has_token(entries[m].state.starts@, entries[i].state.starts@[k].token@));
    }
}

/// A document of which the last page was not given yet is not given up for
/// another: it stays as it is, whatever record is answered with in between.
pub proof fn deliveries_disturb_no_reader(
    before: Sessions<DocumentState>,
    i: int,
    record: ResolvedContent,
    page: DocumentPage,
    after: Sessions<DocumentState>,
    other: ResolvedContent,
    discovery_cursor: Option<String>,
    now: u64,
    token: String,
    page_token: String,
    r: Result<Delivery, RecordResolveError>,
)
    requires
        reading(before.entries@, i, record, page),
        !before.entries@[i].state.complete,
        is_live(before.entries@[i].touched, now),
        delivered(before, after, other, discovery_cursor, now, token, page_token, r),
        after.well_formed(),
        unknown(before.entries@, page_token@),
        discovery_cursor is Some ==> unknown(before.entries@, discovery_cursor->0@),
        !tokens(before.entries@).contains(token@),
    ensures
        exists|n: int| #[trigger]
            reading(after.entries@, n, record, page) && after.entries@[n]
                == before.entries@[i],
{
    let entries = before.entries@;
    let length = encode_utf8(other.content@).len();
    if length <= INLINE_BYTES || length > crate::document::DOCUMENT_BYTES {
        assert(reading(after.entries@, i, record, page));
    } else {
        let live = entries.filter(live_entry(now));
        lemma_live_session(entries, now, i);
        lemma_filter_keeps_distinct(entries, live_entry(now));
        let n = choose|n: int| 0 <= n < live.len() && #[trigger] live[n] == entries[i];
        lemma_live_reading(entries, i, record, page, now, n);
        lemma_unknown_in_live(entries, now, page_token@);
        if discovery_cursor is Some {
            lemma_unknown_in_live(entries, now, discovery_cursor->0@);
        }
        let room = choose|room: Sessions<DocumentState>|
            #![trigger room.well_formed()]
            {
                &&& room.well_formed()
                &&& with_room(live, room.entries@)
                &&& if room.entries@.len() >= MAX_SESSIONS {
                    r is Err && after.entries == room.entries
                } else {
                    &&& r matches Ok(Delivery::Paged(first))
                    &&& exists|fresh: DocumentState, state: DocumentState|
                        #![trigger fresh_document(other, discovery_cursor, fresh), placed(
                            room,
                            Session { token, touched: now, state },
                        )]
                        {
                            &&& fresh_document(other, discovery_cursor, fresh)
                            &&& page_cut(fresh, state, r->Ok_0->Paged_0, 0, page_token)
                            &&& after.entries@ == placed(
                                room,
                                Session { token, touched: now, state },
                            )
                        }
                }
            };
        let m = lemma_room_keeps(live, room.entries@, n, record, page);
        if room.entries@.len() >= MAX_SESSIONS {
            assert(reading(after.entries@, m, record, page));
        } else {
            let (fresh, state) = choose|fresh: DocumentState, state: DocumentState|
                #![trigger fresh_document(other, discovery_cursor, fresh), placed(
                    room,
                    Session { token, touched: now, state },
                )]
                {
                    &&& fresh_document(other, discovery_cursor, fresh)
                    &&& page_cut(fresh, state, r->Ok_0->Paged_0, 0, page_token)
                    &&& after.entries@ == placed(room, Session { token, touched: now, state })
                };
            assert(!tokens(room.entries@).contains(token@)) by {
                if tokens(room.entries@).contains(token@) {
                    let q = choose|q: int|
                        0 <= q < room.entries@.len() && tokens(room.entries@)[q] == token@;
                    assert(live.contains(room.entries@[q]));
                    let w = choose|w: int| 0 <= w < live.len() && live[w] == room.entries@[q];
                    assert(tokens(live)[w] == token@);
                    assert(tokens(live).contains(token@));
                }
            }
            assert(after.entries@ == room.entries@.push(Session { token, touched: now, state }));
            let all = after.entries@;
            assert forall|j: int, k: int|
                #![trigger all[j], all[m].state.starts@[k]]
                0 <= j < all.len() && all[j].token@ != all[m].token@ && 0 <= k
                    < all[m].state.starts@.len() && all[m].state.starts@[k].offset
                    > 0 implies !has_token(all[j].state.starts@, all[m].state.starts@[k].token@) by {
                let t = all[m].state.starts@[k].token@;
                assert(all[m] == live[n]);
                assert(start_at(live[n].state.starts@, t, k));
                assert(has_token(live[n].state.starts@, t));
                if j < room.entries@.len() {
                    assert(all[j] == room.entries@[j]);
                    assert(!has_token(
                        room.entries@[j].state.starts@,
                        room.entries@[m].state.starts@[k].token@,
                    ));
                } else if has_token(state.starts@, t) {
                    let q = choose|q: int| #[trigger] start_at(state.starts@, t, q);
                    assert(state.starts@[q].token == page_token || (discovery_cursor is Some
                        && state.starts@[q].token == discovery_cursor->0));
                }
            }
            assert(reading(all, m, record, page));
        }
    }
}

/// Making room gives up no document that is still being read.
proof fn lemma_room_keeps(
    live: Seq<Session<DocumentState>>,
    room: Seq<Session<DocumentState>>,
    n: int,
    record: ResolvedContent,
    page: DocumentPage,
) -> (m: int)
    requires
        reading(live, n, record, page),
        !live[n].state.complete,
        with_room(live, room),
        tokens(room).no_duplicates(),
    ensures
        reading(room, m, record, page),
        0 <= m < room.len(),
        room[m] == live[n],
{
    if room == live {
        n
    } else {
        let o = choose|o: int| #[trigger] oldest_complete(live, o) && room == live.remove(o);
        let m = if n < o {
            n
        } else {
            n - 1
        };
        assert(room[m] == live[n]);
        assert forall|j: int, k: int|
            #![trigger room[j], room[m].state.starts@[k]]
            0 <= j < room.len() && room[j].token@ != room[m].token@ && 0 <= k
                < room[m].state.starts@.len() && room[m].state.starts@[k].offset
                > 0 implies !has_token(room[j].state.starts@, room[m].state.starts@[k].token@) by {
            let w = if j < o {
                j
            } else {
                j + 1
            };
            assert(room[j] == live[w]);
            assert(!has_token(live[w].state.starts@, live[n].state.starts@[k].token@));
        }
        m
    }
}

} // verus!
