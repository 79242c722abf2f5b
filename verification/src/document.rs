//! Resolved documents that are too large for one answer. They are cut into
//! pages on character boundaries; each page names the token of the next one.
use vstd::prelude::*;
use vstd::string::*;
use vstd::utf8::*;

use crate::record_error::{invalid, unavailable, RecordResolveError, ResolveErrorView};
use crate::session::{live_entry, placed, tokens, Session, Sessions};
use crate::text::same;

verus! {

/// The longest page, in bytes.
pub const PAGE_BYTES: usize = 8192;

/// The longest document that is answered whole.
pub const INLINE_BYTES: usize = 32768;

/// The longest document that is kept for paging.
pub const DOCUMENT_BYTES: usize = 16777216;

/// How many sessions are kept at once.
pub const MAX_SESSIONS: usize = 32;

/// `sha2::Sha256::digest`.
pub uninterp spec fn sha256(bytes: Seq<u8>) -> Seq<u8>;

/// `sha2::Sha256::digest` of some bytes: 32 bytes that depend on the input
/// alone. Which bytes they are is left to SHA-256.
#[verifier::external_body]
fn sha256_digest(bytes: &[u8]) -> (r: Vec<u8>)
    ensures
        r@ == sha256(bytes@),
        r@.len() == 32,
{
    <sha2::Sha256 as sha2::Digest>::digest(bytes).to_vec()
}

/// `uuid::Uuid::new_v4`, written out. The token is random: nothing is claimed of it.
#[verifier::external_body]
pub(crate) fn fresh_token() -> String {
    uuid::Uuid::new_v4().to_string()
}

pub open spec fn hex_digit(n: int) -> char {
    if n < 10 {
        ((n + 48) as u32) as char
    } else {
        ((n + 87) as u32) as char
    }
}

/// The bytes as pairs of hexadecimal digits.
pub open spec fn hex(bytes: Seq<u8>) -> Seq<char>
    decreases bytes.len(),
{
    if bytes.len() == 0 {
        Seq::empty()
    } else {
        hex(bytes.drop_last()).push(hex_digit((bytes.last() / 16) as int)).push(
            hex_digit((bytes.last() % 16) as int),
        )
    }
}

fn hex_char(n: u8) -> (r: char)
    requires
        n < 16,
    ensures
        r == hex_digit(n as int),
{
    if n < 10 {
        (n + 48) as char
    } else {
        (n + 87) as char
    }
}

pub fn hex_text(bytes: &Vec<u8>) -> (r: String)
    ensures
        r@ == hex(bytes@),
{
    let mut out: String = String::new();
    let mut i: usize = 0;
    while i < bytes.len()
        invariant
            i <= bytes@.len(),
            out@ == hex(bytes@.subrange(0, i as int)),
        decreases bytes@.len() - i,
    {
        let b: u8 = bytes[i];
        out.push(hex_char(b / 16));
        out.push(hex_char(b % 16));
        i += 1;
        assert(bytes@.subrange(0, i as int).drop_last() =~= bytes@.subrange(0, i - 1));
    }
    assert(bytes@.subrange(0, i as int) =~= bytes@);
    out
}

/// The hash by which a document is recognised: its algorithm and its digits.
pub open spec fn hash_of(content: Seq<char>) -> Seq<char> {
    "sha256:"@ + hex(sha256(encode_utf8(content)))
}

pub fn content_hash(content: &str) -> (r: String)
    ensures
        r@ == hash_of(content@),
{
    let digest: Vec<u8> = sha256_digest(content.as_bytes());
    let digits: String = hex_text(&digest);
    let mut out: String = "sha256:".to_owned();
    out.append(digits.as_str());
    out
}

/// The greatest character boundary that is not above `at`.
pub open spec fn boundary_below(bytes: Seq<u8>, at: int) -> int
    decreases at,
{
    if at <= 0 {
        0
    } else if is_char_boundary(bytes, at) {
        at
    } else {
        boundary_below(bytes, at - 1)
    }
}

/// Where the page that begins at `start` ends.
pub open spec fn page_end(bytes: Seq<u8>, start: int) -> int {
    boundary_below(
        bytes,
        if start + PAGE_BYTES < bytes.len() {
            start + PAGE_BYTES
        } else {
            bytes.len() as int
        },
    )
}

pub proof fn lemma_boundary_below(bytes: Seq<u8>, at: int, b: int)
    requires
        valid_utf8(bytes),
        0 <= b <= at <= bytes.len(),
        is_char_boundary(bytes, b),
    ensures
        b <= boundary_below(bytes, at) <= at,
        is_char_boundary(bytes, boundary_below(bytes, at)),
    decreases at,
{
    if at > 0 && !is_char_boundary(bytes, at) {
        lemma_boundary_below(bytes, at - 1, b);
    }
}

/// After a character boundary inside a text there is another one within four bytes.
proof fn lemma_next_boundary(bytes: Seq<u8>, start: int) -> (next: int)
    requires
        valid_utf8(bytes),
        0 <= start < bytes.len(),
        is_char_boundary(bytes, start),
    ensures
        start < next <= start + 4,
        next <= bytes.len(),
        is_char_boundary(bytes, next),
{
    let rest = bytes.subrange(start, bytes.len() as int);
    valid_utf8_split(bytes, start);
    let n = length_of_first_scalar(rest);
    assert(1 <= n <= 4);
    assert(n <= rest.len());
    assert(is_char_boundary(pop_first_scalar(rest), 0));
    assert(is_char_boundary(rest, n));
    if start + n < bytes.len() {
        assert(rest[n] == bytes[start + n]);
        is_char_boundary_iff_not_is_continuation_byte(rest, n);
        is_char_boundary_iff_not_is_continuation_byte(bytes, start + n);
    } else {
        is_char_boundary_start_end_of_seq(bytes);
    }
    start + n
}

/// A page is not empty unless the document is at its end, is no longer than the
/// limit, and ends on a character boundary.
pub proof fn pages_make_progress(bytes: Seq<u8>, start: int)
    requires
        valid_utf8(bytes),
        0 <= start <= bytes.len(),
        is_char_boundary(bytes, start),
    ensures
        start <= page_end(bytes, start) <= bytes.len(),
        start < bytes.len() ==> start < page_end(bytes, start),
        page_end(bytes, start) <= start + PAGE_BYTES,
        is_char_boundary(bytes, page_end(bytes, start)),
{
    let at = if start + PAGE_BYTES < bytes.len() {
        start + PAGE_BYTES
    } else {
        bytes.len() as int
    };
    lemma_boundary_below(bytes, at, start);
    if start < bytes.len() {
        let next = lemma_next_boundary(bytes, start);
        lemma_boundary_below(bytes, at, next);
    }
}

/// What one reads by following the pages from `start` on.
pub open spec fn read_from(bytes: Seq<u8>, start: int) -> Seq<u8>
    decreases bytes.len() - start,
{
    let end = page_end(bytes, start);
    if start < end && end < bytes.len() {
        bytes.subrange(start, end) + read_from(bytes, end)
    } else {
        bytes.subrange(start, end)
    }
}

/// The pages of a document, followed from any of them to the last, give back
/// the rest of the document: nothing is left out and nothing comes twice.
pub proof fn pages_give_the_document(bytes: Seq<u8>, start: int)
    requires
        valid_utf8(bytes),
        0 <= start <= bytes.len(),
        is_char_boundary(bytes, start),
    ensures
        read_from(bytes, start) == bytes.subrange(start, bytes.len() as int),
    decreases bytes.len() - start,
{
    pages_make_progress(bytes, start);
    let end = page_end(bytes, start);
    if start < end && end < bytes.len() {
        pages_give_the_document(bytes, end);
        assert(bytes.subrange(start, end) + bytes.subrange(end, bytes.len() as int)
            =~= bytes.subrange(start, bytes.len() as int));
    }
}

/// Where a page begins that a token stands for.
pub struct PageStart {
    pub token: String,
    pub offset: usize,
}

/// A document that is being paged through.
pub struct DocumentState {
    pub sys_id: String,
    pub table: String,
    pub resource_type: String,
    pub content: String,
    pub content_hash: String,
    pub starts: Vec<PageStart>,
    pub complete: bool,
}

/// One page of a document.
pub struct DocumentPage {
    pub sys_id: String,
    pub table: String,
    pub resource_type: String,
    pub content: String,
    pub content_hash: String,
    pub offset_bytes: usize,
    pub byte_length: usize,
    pub cursor: Option<String>,
}

pub open spec fn start_at(starts: Seq<PageStart>, token: Seq<char>, i: int) -> bool {
    0 <= i < starts.len() && starts[i].token@ == token
}

/// Whether a token stands for a page of the document.
pub open spec fn has_token(starts: Seq<PageStart>, token: Seq<char>) -> bool {
    exists|i: int| #[trigger] start_at(starts, token, i)
}

impl DocumentState {
    pub open spec fn bytes(self) -> Seq<u8> {
        encode_utf8(self.content@)
    }

    /// Every token stands for one page only, and pages begin on character boundaries.
    pub open spec fn well_formed(self) -> bool {
        &&& forall|i: int|
            0 <= i < self.starts@.len() ==> (#[trigger] self.starts@[i]).offset
                <= self.bytes().len() && is_char_boundary(
                self.bytes(),
                self.starts@[i].offset as int,
            )
        &&& forall|i: int, j: int|
            0 <= i < j < self.starts@.len() ==> (#[trigger] self.starts@[i]).token@ != (
            #[trigger] self.starts@[j]).token@
    }

    /// The same document, whatever its tokens.
    pub open spec fn same_document(self, other: DocumentState) -> bool {
        &&& self.sys_id == other.sys_id
        &&& self.table == other.table
        &&& self.resource_type == other.resource_type
        &&& self.content == other.content
        &&& self.content_hash == other.content_hash
    }

    /// A page is the stretch of the document from `start` to the page's end.
    pub open spec fn is_page(self, page: DocumentPage, start: int) -> bool {
        &&& page.sys_id == self.sys_id
        &&& page.table == self.table
        &&& page.resource_type == self.resource_type
        &&& page.content_hash == self.content_hash
        &&& page.offset_bytes == start
        &&& page.byte_length == self.bytes().len()
        &&& encode_utf8(page.content@) == self.bytes().subrange(
            start,
            page_end(self.bytes(), start),
        )
        &&& page.cursor is None <==> page_end(self.bytes(), start) == self.bytes().len()
    }
}

/// Whether a start is noted for the page at `end`.
pub open spec fn has_start(starts: Seq<PageStart>, end: int) -> bool {
    exists|i: int| 0 <= i < starts.len() && (#[trigger] starts[i]).offset == end
}

/// How a page's cursor came about. A page behind it that has a token keeps it;
/// else `token` stands for that page from now on.
pub open spec fn cursor_noted(
    before: Seq<PageStart>,
    after: Seq<PageStart>,
    cursor: String,
    token: String,
    end: int,
) -> bool {
    &&& exists|i: int| #[trigger] start_at(after, cursor@, i) && after[i].offset == end
    &&& if has_start(before, end) {
        after == before
    } else {
        &&& cursor == token
        &&& if has_token(before, token@) {
            exists|i: int| #[trigger]
                start_at(before, token@, i) && after == before.update(
                    i,
                    PageStart { token, offset: end as usize },
                )
        } else {
            after == before.push(PageStart { token, offset: end as usize })
        }
    }
}

/// What cutting the page at `start` leaves of a document. The cursor of the page
/// stands for the page behind it, and a document counts as read once its last
/// page was cut.
pub open spec fn page_cut(
    before: DocumentState,
    after: DocumentState,
    page: DocumentPage,
    start: int,
    token: String,
) -> bool {
    &&& after.same_document(before)
    &&& before.is_page(page, start)
    &&& after.complete == (before.complete || page.cursor is None)
    &&& page.cursor is None ==> after.starts == before.starts
    &&& page.cursor is Some ==> cursor_noted(
        before.starts@,
        after.starts@,
        page.cursor->0,
        token,
        page_end(before.bytes(), start),
    )
}

fn cursor_for(state: &mut DocumentState, end: usize, token: String) -> (cursor: String)
    requires
        old(state).well_formed(),
        end <= old(state).bytes().len(),
        is_char_boundary(old(state).bytes(), end as int),
    ensures
        final(state).well_formed(),
        final(state).same_document(*old(state)),
        final(state).complete == old(state).complete,
        cursor_noted(old(state).starts@, final(state).starts@, cursor, token, end as int),
{
    match next_token(&state.starts, end) {
        Some(known) => known,
        None => {
            note_start(state, token.clone(), end);
            token
        },
    }
}

/// The page that begins at `start`. Its cursor is the token that already stands
/// for the page behind it, or else `token`.
pub fn document_chunk(state: &mut DocumentState, start: usize, token: String) -> (page: DocumentPage)
    requires
        old(state).well_formed(),
        start <= old(state).bytes().len(),
        is_char_boundary(old(state).bytes(), start as int),
    ensures
        final(state).well_formed(),
        page_cut(*old(state), *final(state), page, start as int, token),
{
    let ghost bytes = state.bytes();
    proof {
        encode_utf8_valid_utf8(state.content@);
        pages_make_progress(bytes, start as int);
        is_char_boundary_start_end_of_seq(bytes);
    }
    let length: usize = state.content.as_str().as_bytes().len();
    let mut end: usize = if length - start > PAGE_BYTES {
        start + PAGE_BYTES
    } else {
        length
    };
    while !state.content.as_str().is_char_boundary(end)
        invariant
            bytes == state.bytes(),
            valid_utf8(bytes),
            is_char_boundary(bytes, 0),
            end <= bytes.len(),
            boundary_below(bytes, end as int) == page_end(bytes, start as int),
        decreases end,
    {
        end -= 1;
    }
    assert(end == page_end(bytes, start as int));
    let text: &str = state.content.as_str();
    let front: &str = text.split_at(end).0;
    proof {
        valid_utf8_split(bytes, end as int);
        let f = bytes.subrange(0, end as int);
        assert(is_char_boundary(f, start as int)) by {
            if start < end {
                assert(f[start as int] == bytes[start as int]);
                is_char_boundary_iff_not_is_continuation_byte(bytes, start as int);
                is_char_boundary_iff_not_is_continuation_byte(f, start as int);
            } else {
                is_char_boundary_start_end_of_seq(f);
            }
        }
    }
    let content: String = front.split_at(start).1.to_owned();
    assert(encode_utf8(content@) =~= bytes.subrange(start as int, end as int));
    let cursor: Option<String> = if end < length {
        Some(cursor_for(state, end, token))
    } else {
        state.complete = true;
        None
    };
    DocumentPage {
        sys_id: state.sys_id.clone(),
        table: state.table.clone(),
        resource_type: state.resource_type.clone(),
        content,
        content_hash: state.content_hash.clone(),
        offset_bytes: start,
        byte_length: length,
        cursor,
    }
}

/// The token of the page that begins at `offset`.
fn next_token(starts: &Vec<PageStart>, offset: usize) -> (r: Option<String>)
    ensures
        match r {
            Some(token) => exists|i: int|
                0 <= i < starts@.len() && (#[trigger] starts@[i]).offset == offset
                    && start_at(starts@, token@, i),
            None => forall|i: int|
                0 <= i < starts@.len() ==> (#[trigger] starts@[i]).offset != offset,
        },
{
    let mut i: usize = 0;
    while i < starts.len()
        invariant
            i <= starts@.len(),
            forall|j: int| 0 <= j < i ==> (#[trigger] starts@[j]).offset != offset,
        decreases starts@.len() - i,
    {
        if starts[i].offset == offset {
            assert(start_at(starts@, starts@[i as int].token@, i as int));
            return Some(starts[i].token.clone());
        }
        i += 1;
    }
    None
}

/// Lets a token stand for the page at `offset`, whatever it stood for before.
fn note_start(state: &mut DocumentState, token: String, offset: usize)
    requires
        old(state).well_formed(),
        offset <= old(state).bytes().len(),
        is_char_boundary(old(state).bytes(), offset as int),
    ensures
        final(state).well_formed(),
        final(state).same_document(*old(state)),
        final(state).complete == old(state).complete,
        if has_token(old(state).starts@, token@) {
            exists|i: int| #[trigger]
                start_at(old(state).starts@, token@, i) && final(state).starts@ == old(
                    state,
                ).starts@.update(i, PageStart { token, offset })
        } else {
            final(state).starts@ == old(state).starts@.push(PageStart { token, offset })
        },
        exists|i: int| #[trigger]
            start_at(final(state).starts@, token@, i) && final(state).starts@[i].offset == offset,
{
    let ghost before = state.starts@;
    let ghost fresh = PageStart { token, offset };
    match find_start(&state.starts, token.as_str()) {
        Some(i) => {
            state.starts[i] = PageStart { token, offset };
            proof {
                assert(start_at(before, fresh.token@, i as int));
                assert(start_at(state.starts@, fresh.token@, i as int));
            }
        },
        None => {
            state.starts.push(PageStart { token, offset });
            assert(forall|j: int| 0 <= j < before.len() ==> (#[trigger] before[j]).token@ != token@)
                by {
                assert forall|j: int| 0 <= j < before.len() implies (#[trigger] before[j]).token@
                    != token@ by {
                    assert(!start_at(before, token@, j));
                }
            }
            assert(start_at(state.starts@, fresh.token@, before.len() as int));
        },
    }
}

pub fn find_start(starts: &Vec<PageStart>, token: &str) -> (r: Option<usize>)
    ensures
        match r {
            Some(i) => start_at(starts@, token@, i as int),
            None => !has_token(starts@, token@),
        },
{
    let mut i: usize = 0;
    while i < starts.len()
        invariant
            i <= starts@.len(),
            forall|j: int| 0 <= j < i ==> (#[trigger] starts@[j]).token@ != token@,
        decreases starts@.len() - i,
    {
        if same(starts[i].token.as_str(), token) {
            return Some(i);
        }
        i += 1;
    }
    None
}


pub open spec fn documents_ok(entries: Seq<Session<DocumentState>>) -> bool {
    forall|i: int| 0 <= i < entries.len() ==> (#[trigger] entries[i]).state.well_formed()
}

/// The first document for one of whose pages a token stands.
pub open spec fn holder(entries: Seq<Session<DocumentState>>, token: Seq<char>, i: int) -> bool {
    &&& 0 <= i < entries.len()
    &&& has_token(entries[i].state.starts@, token)
    &&& forall|j: int| 0 <= j < i ==> !has_token((#[trigger] entries[j]).state.starts@, token)
}

pub proof fn lemma_live_documents(entries: Seq<Session<DocumentState>>, now: u64)
    requires
        documents_ok(entries),
    ensures
        documents_ok(entries.filter(live_entry(now))),
{
    crate::listing::lemma_filter_sound(entries, live_entry(now));
    let live = entries.filter(live_entry(now));
    assert forall|i: int| 0 <= i < live.len() implies (#[trigger] live[i]).state.well_formed() by {
        assert(entries.contains(live[i]));
    }
}

pub open spec fn foreign_cursor() -> ResolveErrorView {
    ResolveErrorView::InvalidParams("document cursor belongs to a different identifier"@)
}

/// What a cursor is answered. Where it stands for a page of a live document,
/// that page comes back and the document counts as used; but only to the
/// identifier that the document belongs to. Where the page behind it has no token
/// yet, `token` stands for it from now on.
pub open spec fn replayed(
    before: Seq<Session<DocumentState>>,
    after: Seq<Session<DocumentState>>,
    cursor: Seq<char>,
    sys_id: Seq<char>,
    now: u64,
    token: String,
    r: Option<Result<DocumentPage, RecordResolveError>>,
) -> bool {
    let live = before.filter(live_entry(now));
    match r {
        None => after == live && forall|i: int|
            0 <= i < live.len() ==> !has_token((#[trigger] live[i]).state.starts@, cursor),
        Some(Err(e)) => after == live && e@ == foreign_cursor() && exists|i: int| #[trigger]
            holder(live, cursor, i) && live[i].state.sys_id@ != sys_id,
        Some(Ok(page)) => exists|i: int, k: int| #[trigger]
            holder(live, cursor, i) && live[i].state.sys_id@ == sys_id && #[trigger] start_at(
                live[i].state.starts@,
                cursor,
                k,
            ) && page_cut(
                live[i].state,
                after[i].state,
                page,
                live[i].state.starts@[k].offset as int,
                token,
            ) && after.len() == live.len() && (forall|j: int|
                0 <= j < live.len() && j != i ==> after[j] == live[j]) && after[i].token
                == live[i].token && after[i].touched == now,
    }
}

fn find_holder(entries: &Vec<Session<DocumentState>>, token: &str) -> (r: Option<(usize, usize)>)
    ensures
        match r {
            Some((i, k)) => holder(entries@, token@, i as int) && start_at(
                entries@[i as int].state.starts@,
                token@,
                k as int,
            ),
            None => forall|i: int|
                0 <= i < entries@.len() ==> !has_token(
                    (#[trigger] entries@[i]).state.starts@,
                    token@,
                ),
        },
{
    let mut i: usize = 0;
    while i < entries.len()
        invariant
            i <= entries@.len(),
            forall|j: int|
                0 <= j < i ==> !has_token((#[trigger] entries@[j]).state.starts@, token@),
        decreases entries@.len() - i,
    {
        if let Some(k) = find_start(&entries[i].state.starts, token) {
            assert(start_at(entries@[i as int].state.starts@, token@, k as int));
            return Some((i, k));
        }
        i += 1;
    }
    None
}

/// Answers a cursor; `token` is used if a page behind it has none yet.
pub fn replay_with(
    store: &mut Sessions<DocumentState>,
    cursor: &str,
    sys_id: &str,
    now: u64,
    token: String,
) -> (r: Option<Result<DocumentPage, RecordResolveError>>)
    requires
        old(store).well_formed(),
        documents_ok(old(store).entries@),
    ensures
        final(store).well_formed(),
        documents_ok(final(store).entries@),
        replayed(old(store).entries@, final(store).entries@, cursor@, sys_id@, now, token, r),
{
    store.expire(now);
    let ghost live = store.entries@;
    proof {
        lemma_live_documents(old(store).entries@, now);
    }
    let (i, k): (usize, usize) = match find_holder(&store.entries, cursor) {
        Some(found) => found,
        None => return None,
    };
    if !same(store.entries[i].state.sys_id.as_str(), sys_id) {
        return Some(Err(invalid("document cursor belongs to a different identifier")));
    }
    let offset: usize = store.entries[i].state.starts[k].offset;
    let page: DocumentPage = document_chunk(&mut store.entries[i].state, offset, token);
    store.entries[i].touched = now;
    proof {
        assert(tokens(store.entries@) =~= tokens(live));
        assert(start_at(live[i as int].state.starts@, cursor@, k as int));
    }
    Some(Ok(page))
}

/// Answers a cursor, minting the token of the next page where it needs one.
pub fn replay_document(
    store: &mut Sessions<DocumentState>,
    cursor: &str,
    sys_id: &str,
    now: u64,
) -> (r: Option<Result<DocumentPage, RecordResolveError>>)
    requires
        old(store).well_formed(),
        documents_ok(old(store).entries@),
    ensures
        final(store).well_formed(),
        documents_ok(final(store).entries@),
        exists|token: String| #[trigger]
            replayed(old(store).entries@, final(store).entries@, cursor@, sys_id@, now, token, r),
{
    let token: String = fresh_token();
    replay_with(store, cursor, sys_id, now, token)
}

/// A cursor stands for one page: whatever is asked in between, the same cursor
/// brings the same stretch of the same document for as long as it is known.
pub proof fn replays_agree(state: DocumentState, first: DocumentPage, again: DocumentPage, start: int)
    requires
        state.is_page(first, start),
        state.is_page(again, start),
    ensures
        encode_utf8(first.content@) == encode_utf8(again.content@),
        first.content@ == again.content@,
        first.offset_bytes == again.offset_bytes,
        first.content_hash == again.content_hash,
{
    encode_utf8_decode_utf8(first.content@);
    encode_utf8_decode_utf8(again.content@);
}

/// A resolved record, written out.
pub struct ResolvedContent {
    pub sys_id: String,
    pub table: String,
    pub resource_type: String,
    pub content: String,
}

/// How a resolved record is answered.
pub enum Delivery {
    /// Whole, in the answer itself.
    Inline(ResolvedContent),
    /// By pages.
    Paged(DocumentPage),
}

/// A finished document that was last used longest ago.
pub open spec fn oldest_complete(entries: Seq<Session<DocumentState>>, i: int) -> bool {
    &&& 0 <= i < entries.len()
    &&& entries[i].state.complete
    &&& forall|j: int|
        0 <= j < entries.len() && (#[trigger] entries[j]).state.complete ==> entries[i].touched
            <= entries[j].touched
}

/// The documents that are left once room was made for another one.
pub open spec fn with_room(
    live: Seq<Session<DocumentState>>,
    room: Seq<Session<DocumentState>>,
) -> bool {
    if live.len() < MAX_SESSIONS || (forall|i: int|
        0 <= i < live.len() ==> !(#[trigger] live[i]).state.complete) {
        room == live
    } else {
        exists|i: int| #[trigger] oldest_complete(live, i) && room == live.remove(i)
    }
}

fn find_oldest_complete(entries: &Vec<Session<DocumentState>>) -> (r: Option<usize>)
    ensures
        match r {
            Some(i) => oldest_complete(entries@, i as int),
            None => forall|i: int|
                0 <= i < entries@.len() ==> !(#[trigger] entries@[i]).state.complete,
        },
{
    let mut best: Option<usize> = None;
    let mut i: usize = 0;
    while i < entries.len()
        invariant
            i <= entries@.len(),
            match best {
                Some(b) => b < i && entries@[b as int].state.complete && forall|j: int|
                    0 <= j < i && (#[trigger] entries@[j]).state.complete
                        ==> entries@[b as int].touched <= entries@[j].touched,
                None => forall|j: int| 0 <= j < i ==> !(#[trigger] entries@[j]).state.complete,
            },
        decreases entries@.len() - i,
    {
        if entries[i].state.complete {
            match best {
                Some(b) => {
                    if entries[i].touched < entries[b].touched {
                        best = Some(i);
                    }
                },
                None => {
                    best = Some(i);
                },
            }
        }
        i += 1;
    }
    best
}

pub open spec fn too_long() -> ResolveErrorView {
    ResolveErrorView::Unavailable(
        "resolved document exceeds the 16 MiB session limit; no data was truncated"@,
    )
}

pub open spec fn no_room() -> ResolveErrorView {
    ResolveErrorView::Unavailable("resolved document sessions are at capacity"@)
}

/// The tokens of a document before its first page is cut: the cursor that led to
/// the record stands for its beginning.
pub open spec fn first_starts(discovery_cursor: Option<String>) -> Seq<PageStart> {
    match discovery_cursor {
        Some(token) => seq![PageStart { token, offset: 0 }],
        None => Seq::empty(),
    }
}

/// The document that a record becomes, before its first page is cut.
pub open spec fn fresh_document(
    record: ResolvedContent,
    discovery_cursor: Option<String>,
    state: DocumentState,
) -> bool {
    &&& state.sys_id == record.sys_id
    &&& state.table == record.table
    &&& state.resource_type == record.resource_type
    &&& state.content == record.content
    &&& state.content_hash@ == hash_of(record.content@)
    &&& state.starts@ == first_starts(discovery_cursor)
    &&& !state.complete
}

/// How a record was answered, and what became of the sessions.
pub open spec fn delivered(
    before: Sessions<DocumentState>,
    after: Sessions<DocumentState>,
    record: ResolvedContent,
    discovery_cursor: Option<String>,
    now: u64,
    token: String,
    page_token: String,
    r: Result<Delivery, RecordResolveError>,
) -> bool {
    let length = encode_utf8(record.content@).len();
    if length <= INLINE_BYTES {
        r == Ok::<Delivery, RecordResolveError>(Delivery::Inline(record)) && after == before
    } else if length > DOCUMENT_BYTES {
        r is Err && r->Err_0@ == too_long() && after == before
    } else {
        exists|room: Sessions<DocumentState>|
            #![trigger room.well_formed()]
            {
                &&& room.well_formed()
                &&& with_room(before.entries@.filter(live_entry(now)), room.entries@)
                &&& if room.entries@.len() >= MAX_SESSIONS {
                    r is Err && r->Err_0@ == no_room() && after.entries == room.entries
                } else {
                    &&& r matches Ok(Delivery::Paged(page))
                    &&& exists|fresh: DocumentState, state: DocumentState|
                        #![trigger fresh_document(record, discovery_cursor, fresh), placed(
                            room,
                            Session { token, touched: now, state },
                        )]
                        {
                            &&& fresh_document(record, discovery_cursor, fresh)
                            &&& page_cut(fresh, state, r->Ok_0->Paged_0, 0, page_token)
                            &&& after.entries@ == placed(
                                room,
                                Session { token, touched: now, state },
                            )
                        }
                }
            }
    }
}

/// Answers with a record: whole where it is short, by pages where it is long,
/// and not at all where it is longer than a session may hold. A long record takes
/// a session; a finished one is given up for it where none is free. The cursor
/// that led to the record keeps standing for its first page.
pub fn deliver_with(
    store: &mut Sessions<DocumentState>,
    record: ResolvedContent,
    discovery_cursor: Option<String>,
    now: u64,
    token: String,
    page_token: String,
) -> (r: Result<Delivery, RecordResolveError>)
    requires
        old(store).well_formed(),
        documents_ok(old(store).entries@),
    ensures
        final(store).well_formed(),
        documents_ok(final(store).entries@),
        delivered(*old(store), *final(store), record, discovery_cursor, now, token, page_token, r),
{
    let length: usize = record.content.as_str().as_bytes().len();
    if length <= INLINE_BYTES {
        return Ok(Delivery::Inline(record));
    }
    if length > DOCUMENT_BYTES {
        return Err(
            unavailable("resolved document exceeds the 16 MiB session limit; no data was truncated"),
        );
    }
    store.expire(now);
    let ghost live = store.entries@;
    proof {
        lemma_live_documents(old(store).entries@, now);
    }
    if store.entries.len() >= MAX_SESSIONS {
        if let Some(oldest) = find_oldest_complete(&store.entries) {
            let dropped: Session<DocumentState> = store.entries.remove(oldest);
            proof {
                assert(tokens(store.entries@) =~= tokens(live).remove(oldest as int));
                assert(store.well_formed());
                assert(oldest_complete(live, oldest as int));
            }
        }
    }
    let ghost room = *store;
    assert(with_room(live, room.entries@));
    assert(room.well_formed());
    if store.entries.len() >= MAX_SESSIONS {
        return Err(unavailable("resolved document sessions are at capacity"));
    }
    let mut starts: Vec<PageStart> = Vec::new();
    if let Some(cursor) = discovery_cursor {
        starts.push(PageStart { token: cursor, offset: 0 });
    }
    let hash: String = content_hash(record.content.as_str());
    let mut state = DocumentState {
        sys_id: record.sys_id,
        table: record.table,
        resource_type: record.resource_type,
        content: record.content,
        content_hash: hash,
        starts,
        complete: false,
    };
    proof {
        encode_utf8_valid_utf8(state.content@);
        is_char_boundary_start_end_of_seq(state.bytes());
        assert(state.starts@ =~= first_starts(discovery_cursor));
        assert(fresh_document(record, discovery_cursor, state));
    }
    let page: DocumentPage = document_chunk(&mut state, 0, page_token);
    let ghost cut = state;
    store.put(token, now, state);
    Ok(Delivery::Paged(page))
}

/// Answers with a record under tokens that are minted for it.
pub fn deliver(
    store: &mut Sessions<DocumentState>,
    record: ResolvedContent,
    discovery_cursor: Option<String>,
    now: u64,
) -> (r: Result<Delivery, RecordResolveError>)
    requires
        old(store).well_formed(),
        documents_ok(old(store).entries@),
    ensures
        final(store).well_formed(),
        documents_ok(final(store).entries@),
        exists|token: String, page_token: String| #[trigger]
            delivered(*old(store), *final(store), record, discovery_cursor, now, token, page_token, r),
{
    let token: String = fresh_token();
    let page_token: String = fresh_token();
    deliver_with(store, record, discovery_cursor, now, token, page_token)
}

} // verus!
