//! Ordering from the catalog: reading what the provider answers.
use vstd::prelude::*;
use vstd::string::*;

use crate::knowledge_refresh::without_end_slashes;
use crate::knowledge_sync::first_of;
use crate::query::{DisplayMode, Query, QueryView};
use crate::row::Row;
use crate::tables::{
    canonical_record_table, normalize_record_lookup_sys_id, record_table, sys_id_of,
};
use crate::tags::tag_text;
use crate::text::{
    chars_of, copy_text, has_prefix, joined3, same, slice_string, starts_with_text, text_of, trim,
    trim_text, upper, upper_text,
};
use crate::user::{borrowed, given, given_text};

verus! {

/// One item of an answer.
#[derive(Debug, Clone, PartialEq, Eq)]
pub struct CatalogReplyItem {
    pub sys_id: Option<String>,
    pub number: Option<String>,
}

/// What is read of an answer to an order: the texts at its top, those under
/// `request`, and its items.
pub struct CatalogReply {
    pub request_id: Option<String>,
    pub request_number: Option<String>,
    pub table: Option<String>,
    pub sys_id: Option<String>,
    pub number: Option<String>,
    pub nested_sys_id: Option<String>,
    pub nested_number: Option<String>,
    pub nested_table: Option<String>,
    pub items: Option<Vec<CatalogReplyItem>>,
    pub request_items: Option<Vec<CatalogReplyItem>>,
    pub request_item: Option<CatalogReplyItem>,
}

#[derive(Debug, Clone, PartialEq, Eq)]
pub struct CatalogSubmitResult {
    pub item_sys_id: String,
    pub table: Option<String>,
    pub sys_id: Option<String>,
    pub number: Option<String>,
    pub request_table: Option<String>,
    pub request_sys_id: Option<String>,
    pub request_number: Option<String>,
    pub request_item_sys_id: Option<String>,
    pub request_item_number: Option<String>,
    pub browser_url: Option<String>,
}

pub struct SubmitView {
    pub item_sys_id: Seq<char>,
    pub table: Option<Seq<char>>,
    pub sys_id: Option<Seq<char>>,
    pub number: Option<Seq<char>>,
    pub request_table: Option<Seq<char>>,
    pub request_sys_id: Option<Seq<char>>,
    pub request_number: Option<Seq<char>>,
    pub request_item_sys_id: Option<Seq<char>>,
    pub request_item_number: Option<Seq<char>>,
    pub browser_url: Option<Seq<char>>,
}

impl View for CatalogSubmitResult {
    type V = SubmitView;

    open spec fn view(&self) -> SubmitView {
        SubmitView {
            item_sys_id: self.item_sys_id@,
            table: text_of(self.table),
            sys_id: text_of(self.sys_id),
            number: text_of(self.number),
            request_table: text_of(self.request_table),
            request_sys_id: text_of(self.request_sys_id),
            request_number: text_of(self.request_number),
            request_item_sys_id: text_of(self.request_item_sys_id),
            request_item_number: text_of(self.request_item_number),
            browser_url: text_of(self.browser_url),
        }
    }
}

/// The item of an answer: the first of its list of items, else the single one.
pub open spec fn reply_item(reply: CatalogReply) -> Option<CatalogReplyItem> {
    let list = match reply.items {
        Some(v) => Some(v@),
        None => match reply.request_items {
            Some(v) => Some(v@),
            None => None,
        },
    };
    match list {
        Some(items) => if items.len() > 0 {
            Some(items[0])
        } else {
            reply.request_item
        },
        None => reply.request_item,
    }
}

pub open spec fn item_sys_id_of(reply: CatalogReply) -> Option<Seq<char>> {
    match reply_item(reply) {
        Some(item) => given(text_of(item.sys_id)),
        None => None,
    }
}

pub open spec fn item_number_of(reply: CatalogReply) -> Option<Seq<char>> {
    match reply_item(reply) {
        Some(item) => given(text_of(item.number)),
        None => None,
    }
}

/// A table that is given, by its canonical name.
pub open spec fn given_table(o: Option<Seq<char>>) -> Option<Seq<char>> {
    match given(o) {
        Some(t) => Some(record_table(t)),
        None => None,
    }
}

/// The id of the request: as such, under `request`, or that of the answer where
/// the answer is a request.
pub open spec fn request_id_of(reply: CatalogReply) -> Option<Seq<char>> {
    first_of(
        given(text_of(reply.request_id)),
        first_of(
            given(text_of(reply.nested_sys_id)),
            if given_table(text_of(reply.table)) == Some("sc_request"@) {
                given(text_of(reply.sys_id))
            } else {
                None
            },
        ),
    )
}

/// A number that is one of a request.
pub open spec fn request_number_only(o: Option<Seq<char>>) -> Option<Seq<char>> {
    match o {
        Some(n) => if has_prefix(upper(n), "REQ"@) {
            Some(n)
        } else {
            None
        },
        None => None,
    }
}

pub open spec fn request_number_of(reply: CatalogReply) -> Option<Seq<char>> {
    first_of(
        given(text_of(reply.request_number)),
        first_of(
            given(text_of(reply.nested_number)),
            request_number_only(given(text_of(reply.number))),
        ),
    )
}

/// The table of the result: that of items where there is one, else what the
/// answer says.
pub open spec fn result_table(reply: CatalogReply) -> Option<Seq<char>> {
    if item_sys_id_of(reply) is Some {
        Some("sc_req_item"@)
    } else {
        first_of(given_table(text_of(reply.table)), given_table(text_of(reply.nested_table)))
    }
}

pub open spec fn result_sys_id(reply: CatalogReply) -> Option<Seq<char>> {
    first_of(item_sys_id_of(reply), first_of(given(text_of(reply.sys_id)), request_id_of(reply)))
}

pub open spec fn result_number(reply: CatalogReply) -> Option<Seq<char>> {
    first_of(
        item_number_of(reply),
        first_of(given(text_of(reply.number)), request_number_of(reply)),
    )
}

/// Where a browser shows a ticket. The portal of the provider's own counts where
/// none is set.
pub open spec fn ticket_url(
    base_url: Seq<char>,
    portal: Seq<char>,
    table: Seq<char>,
    sys_id: Seq<char>,
) -> Seq<char> {
    let p = if trim(portal).len() == 0 {
        "sp"@
    } else {
        trim(portal)
    };
    without_end_slashes(base_url) + "/"@ + p + "?id=ticket&table="@ + table + "&sys_id="@ + sys_id
        + "&view=sp"@
}

/// What is read out of an answer.
pub open spec fn submit_view(
    item_sys_id: Seq<char>,
    reply: CatalogReply,
    base_url: Seq<char>,
    portal: Seq<char>,
) -> SubmitView {
    let table = result_table(reply);
    let sys_id = result_sys_id(reply);
    SubmitView {
        item_sys_id,
        table,
        sys_id,
        number: result_number(reply),
        request_table: if request_id_of(reply) is Some {
            Some("sc_request"@)
        } else {
            None
        },
        request_sys_id: request_id_of(reply),
        request_number: request_number_of(reply),
        request_item_sys_id: item_sys_id_of(reply),
        request_item_number: item_number_of(reply),
        browser_url: if table is Some && sys_id is Some {
            Some(ticket_url(base_url, portal, table->0, sys_id->0))
        } else {
            None
        },
    }
}

fn or_text(a: Option<String>, b: Option<String>) -> (r: Option<String>)
    ensures
        r == first_of(a, b),
{
    match a {
        Some(t) => Some(t),
        None => b,
    }
}

fn table_text(o: &Option<String>) -> (r: Option<String>)
    ensures
        text_of(r) == given_table(text_of(*o)),
{
    match given_text(borrowed(o)) {
        Some(t) => Some(canonical_record_table(t.as_str())),
        None => None,
    }
}

pub fn catalog_browser_url(base_url: &str, portal: &str, table: &str, sys_id: &str) -> (r: String)
    ensures
        r@ == ticket_url(base_url@, portal@, table@, sys_id@),
{
    let v: Vec<char> = chars_of(base_url);
    let mut n: usize = v.len();
    assert(v@.subrange(0, n as int) =~= base_url@);
    while n > 0 && v[n - 1] == '/'
        invariant
            n <= v@.len(),
            without_end_slashes(v@.subrange(0, n as int)) == without_end_slashes(base_url@),
        decreases n,
    {
        proof {
            assert(v@.subrange(0, n as int).drop_last() =~= v@.subrange(0, n - 1));
        }
        n -= 1;
    }
    let mut out: String = slice_string(&v, 0, n);
    let given_portal: String = trim_text(portal);
    out.append("/");
    if given_portal.as_str().unicode_len() == 0 {
        out.append("sp");
    } else {
        out.append(given_portal.as_str());
    }
    out.append("?id=ticket&table=");
    out.append(table);
    out.append("&sys_id=");
    out.append(sys_id);
    out.append("&view=sp");
    out
}

fn first_result_item(reply: &CatalogReply) -> (r: Option<&CatalogReplyItem>)
    ensures
        match r {
            Some(item) => reply_item(*reply) == Some(*item),
            None => reply_item(*reply) is None,
        },
{
    let list: Option<&Vec<CatalogReplyItem>> = match &reply.items {
        Some(v) => Some(v),
        None => match &reply.request_items {
            Some(v) => Some(v),
            None => None,
        },
    };
    if let Some(items) = list {
        if items.len() > 0 {
            return Some(&items[0]);
        }
    }
    match &reply.request_item {
        Some(item) => Some(item),
        None => None,
    }
}

/// Reads an answer to an order.
pub fn catalog_submit_result_from_response(
    item_sys_id: String,
    reply: &CatalogReply,
    base_url: &str,
    portal: &str,
) -> (r: CatalogSubmitResult)
    ensures
        r@ == submit_view(item_sys_id@, *reply, base_url@, portal@),
{
    let (request_item_sys_id, request_item_number): (Option<String>, Option<String>) =
        match first_result_item(reply) {
        Some(item) => (given_text(borrowed(&item.sys_id)), given_text(borrowed(&item.number))),
        None => (None, None),
    };
    let own_table: Option<String> = table_text(&reply.table);
    let is_request: bool = match &own_table {
        Some(t) => same(t.as_str(), "sc_request"),
        None => false,
    };
    let own_sys_id: Option<String> = if is_request {
        given_text(borrowed(&reply.sys_id))
    } else {
        None
    };
    let request_sys_id: Option<String> = or_text(
        given_text(borrowed(&reply.request_id)),
        or_text(given_text(borrowed(&reply.nested_sys_id)), own_sys_id),
    );
    let own_number: Option<String> = match given_text(borrowed(&reply.number)) {
        Some(n) => {
            let capitals: String = upper_text(n.as_str());
            if starts_with_text(capitals.as_str(), "REQ") {
                Some(n)
            } else {
                None
            }
        },
        None => None,
    };
    let request_number: Option<String> = or_text(
        given_text(borrowed(&reply.request_number)),
        or_text(given_text(borrowed(&reply.nested_number)), own_number),
    );
    let table: Option<String> = if request_item_sys_id.is_some() {
        Some("sc_req_item".to_owned())
    } else {
        or_text(own_table, table_text(&reply.nested_table))
    };
    let sys_id: Option<String> = or_text(
        copy_text(&request_item_sys_id),
        or_text(given_text(borrowed(&reply.sys_id)), copy_text(&request_sys_id)),
    );
    let number: Option<String> = or_text(
        copy_text(&request_item_number),
        or_text(given_text(borrowed(&reply.number)), copy_text(&request_number)),
    );
    let browser_url: Option<String> = match &table {
        Some(t) => match &sys_id {
            Some(id) => Some(catalog_browser_url(base_url, portal, t.as_str(), id.as_str())),
            None => None,
        },
        None => None,
    };
    let request_table: Option<String> = if request_sys_id.is_some() {
        Some("sc_request".to_owned())
    } else {
        None
    };
    CatalogSubmitResult {
        item_sys_id,
        table,
        sys_id,
        number,
        request_table,
        request_sys_id,
        request_number,
        request_item_sys_id,
        request_item_number,
        browser_url,
    }
}

/// An answer with an item that has an id is read as that item, whatever else it
/// holds, and has a page in the browser.
pub proof fn items_win(
    item_sys_id: Seq<char>,
    reply: CatalogReply,
    base_url: Seq<char>,
    portal: Seq<char>,
)
    requires
        item_sys_id_of(reply) is Some,
    ensures
        ({
            let v = submit_view(item_sys_id, reply, base_url, portal);
            &&& v.table == Some("sc_req_item"@)
            &&& v.sys_id == item_sys_id_of(reply)
            &&& v.browser_url == Some(
                ticket_url(base_url, portal, "sc_req_item"@, item_sys_id_of(reply)->0),
            )
        }),
{
}

// --- the order itself, and what is read afterwards ---

/// Where an order is sent.
pub fn order_path(item_sys_id: &str) -> (r: Result<String, String>)
    ensures
        match r {
            Ok(path) => sys_id_of(item_sys_id@) is Some && path@
                == "/api/sn_sc/v1/servicecatalog/items/"@ + sys_id_of(item_sys_id@)->0
                + "/order_now"@,
            Err(e) => sys_id_of(item_sys_id@) is None && e@ == crate::tables::bad_sys_id(),
        },
{
    match normalize_record_lookup_sys_id(item_sys_id) {
        Ok(id) => Ok(
            joined3("/api/sn_sc/v1/servicecatalog/items/", id.as_str(), "/order_now"),
        ),
        Err(e) => Err(e),
    }
}

/// The record that is read again after an order: the item or the request that
/// came of it.
pub open spec fn reread_of(v: SubmitView) -> Option<(Seq<char>, Seq<char>)> {
    if v.table is Some && v.sys_id is Some && (record_table(v.table->0) == "sc_req_item"@
        || record_table(v.table->0) == "sc_request"@) {
        Some((record_table(v.table->0), v.sys_id->0))
    } else {
        None
    }
}

pub fn reread_target(result: &CatalogSubmitResult) -> (r: Option<(String, String)>)
    ensures
        match r {
            Some((table, sys_id)) => reread_of(result@) == Some((table@, sys_id@)),
            None => reread_of(result@) is None,
        },
{
    match &result.table {
        Some(t) => match &result.sys_id {
            Some(id) => {
                let table: String = canonical_record_table(t.as_str());
                if same(table.as_str(), "sc_req_item") || same(table.as_str(), "sc_request") {
                    Some((table, id.clone()))
                } else {
                    None
                }
            },
            None => None,
        },
        None => None,
    }
}

/// The result with the record that was read again.
pub fn with_reread(
    result: CatalogSubmitResult,
    table: String,
    sys_id: String,
    number: String,
) -> (r: CatalogSubmitResult)
    ensures
        r@ == (SubmitView {
            table: Some(table@),
            sys_id: Some(sys_id@),
            number: Some(number@),
            ..result@
        }),
{
    let mut out: CatalogSubmitResult = result;
    out.table = Some(table);
    out.sys_id = Some(sys_id);
    out.number = Some(number);
    out
}

/// The request whose item is looked for: the answer named the request and no
/// item.
pub fn wanted_request(result: &CatalogSubmitResult) -> (r: Option<String>)
    ensures
        text_of(r) == (if result@.request_item_sys_id is None {
            result@.request_sys_id
        } else {
            None
        }),
{
    if result.request_item_sys_id.is_some() {
        None
    } else {
        copy_text(&result.request_sys_id)
    }
}

/// The query for the item of a request.
pub fn request_item_query(request_sys_id: &str) -> (r: Query)
    ensures
        r@ == QueryView::of("sc_req_item"@).equals("request"@, request_sys_id@).display(
            DisplayMode::Both,
        ),
{
    Query::of("sc_req_item").equals("request", request_sys_id).display(DisplayMode::Both)
}

/// The result with the item of the request.
pub fn with_request_item(result: CatalogSubmitResult, item: &Row, base_url: &str, portal: &str) -> (r:
    CatalogSubmitResult)
    ensures
        ({
            let number = given(tag_text(item@, "number"@));
            r@ == (SubmitView {
                table: Some("sc_req_item"@),
                sys_id: Some(item@.sys_id),
                number,
                request_item_sys_id: Some(item@.sys_id),
                request_item_number: number,
                browser_url: Some(ticket_url(base_url@, portal@, "sc_req_item"@, item@.sys_id)),
                ..result@
            })
        }),
{
    let number: Option<String> = match item.get_raw("number") {
        Some(t) => given_text(Some(t)),
        None => given_text(item.get_str("number")),
    };
    let mut out: CatalogSubmitResult = result;
    out.table = Some("sc_req_item".to_owned());
    out.sys_id = Some(item.sys_id.clone());
    out.number = copy_text(&number);
    out.request_item_sys_id = Some(item.sys_id.clone());
    out.request_item_number = number;
    out.browser_url = Some(
        catalog_browser_url(base_url, portal, "sc_req_item", item.sys_id.as_str()),
    );
    out
}

/// What came of looking for the item of a request.
#[derive(Debug, Clone, Copy, PartialEq, Eq, Structural)]
pub enum ItemLookup {
    Found,
    Absent,
    Failed,
}

/// How the looking goes on.
#[derive(Debug, Clone, Copy, PartialEq, Eq, Structural)]
pub enum LookupStep {
    /// The item is taken.
    Take,
    /// The item may still come: a quarter of a second later it is looked for
    /// again.
    Wait,
    /// There will be none.
    GiveUp,
}

/// What follows the attempt with that number, counted from nothing: the item is
/// looked for four times at most, and not again after a failure.
pub fn next_lookup(attempt: u32, outcome: ItemLookup) -> (r: LookupStep)
    ensures
        r == (match outcome {
            ItemLookup::Found => LookupStep::Take,
            ItemLookup::Absent => if attempt < 3 {
                LookupStep::Wait
            } else {
                LookupStep::GiveUp
            },
            ItemLookup::Failed => LookupStep::GiveUp,
        }),
{
    match outcome {
        ItemLookup::Found => LookupStep::Take,
        ItemLookup::Absent => if attempt < 3 {
            LookupStep::Wait
        } else {
            LookupStep::GiveUp
        },
        ItemLookup::Failed => LookupStep::GiveUp,
    }
}

} // verus!
