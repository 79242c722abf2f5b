//! Reading one server, and searching servers.
use vstd::prelude::*;
use vstd::string::*;

use crate::query::{DisplayMode, Operator, Query, QueryView};
use crate::reference::{reference_filter, referring};
use crate::row::{Failure, Row};
use crate::tables::{bad_sys_id, normalize_record_lookup_sys_id, sys_id_of, SERVER_TABLE};
use crate::text::{decimal, decimal_text, joined, same, text_of, texts};
use crate::user::{borrowed, contains_given, equals_given, given, given_text};

verus! {

/// Why a server could not be read. That it is not there is told apart from that
/// it may not be read, and from that nobody could be asked.
#[derive(Debug, Clone, PartialEq, Eq)]
pub enum ServerGetError {
    /// The provider says that the record does not exist.
    NotFound,
    /// The record may exist, but may not be read.
    AclRestricted(String),
    /// The provider could not be reached.
    Network(String),
    /// More than one record matches the selector.
    Disambiguation { selector: String, matched: usize },
    /// A row came back that is no server.
    Hydration(String),
    /// Anything else.
    Other(String),
}

pub enum ServerGetErrorView {
    NotFound,
    AclRestricted(Seq<char>),
    Network(Seq<char>),
    Disambiguation { selector: Seq<char>, matched: nat },
    Hydration(Seq<char>),
    Other(Seq<char>),
}

impl View for ServerGetError {
    type V = ServerGetErrorView;

    open spec fn view(&self) -> ServerGetErrorView {
        match *self {
            ServerGetError::NotFound => ServerGetErrorView::NotFound,
            ServerGetError::AclRestricted(d) => ServerGetErrorView::AclRestricted(d@),
            ServerGetError::Network(d) => ServerGetErrorView::Network(d@),
            ServerGetError::Disambiguation { selector, matched } => {
                ServerGetErrorView::Disambiguation { selector: selector@, matched: matched as nat }
            },
            ServerGetError::Hydration(d) => ServerGetErrorView::Hydration(d@),
            ServerGetError::Other(d) => ServerGetErrorView::Other(d@),
        }
    }
}

/// How a request failed: what kind of failure it was, what it says, and whether
/// it says that access was refused.
#[derive(Debug, Clone)]
pub struct ServerFailure {
    pub failure: Failure,
    pub message: String,
    pub refuses_access: bool,
}

/// What a failure means for the reading of a server.
pub open spec fn classified(f: ServerFailure) -> ServerGetErrorView {
    match f.failure {
        Failure::Api(401) => ServerGetErrorView::AclRestricted(f.message@),
        Failure::Api(403) => ServerGetErrorView::AclRestricted(f.message@),
        Failure::Auth(_) => ServerGetErrorView::AclRestricted(f.message@),
        Failure::Http => ServerGetErrorView::Network(f.message@),
        Failure::RateLimited => ServerGetErrorView::Network(f.message@),
        _ => if f.refuses_access {
            ServerGetErrorView::AclRestricted(f.message@)
        } else {
            ServerGetErrorView::Other(f.message@)
        },
    }
}

impl ServerGetError {
    /// What a failure means.
    pub fn from_api(f: ServerFailure) -> (r: ServerGetError)
        ensures
            r@ == classified(f),
    {
        match f.failure {
            Failure::Api(401) => ServerGetError::AclRestricted(f.message),
            Failure::Api(403) => ServerGetError::AclRestricted(f.message),
            Failure::Auth(_) => ServerGetError::AclRestricted(f.message),
            Failure::Http => ServerGetError::Network(f.message),
            Failure::RateLimited => ServerGetError::Network(f.message),
            _ => if f.refuses_access {
                ServerGetError::AclRestricted(f.message)
            } else {
                ServerGetError::Other(f.message)
            },
        }
    }

    /// The error in words.
    pub fn message(&self) -> (r: String)
        ensures
            r@ == error_text(self@),
    {
        match self {
            ServerGetError::NotFound => "server not found".to_owned(),
            ServerGetError::AclRestricted(d) => joined("server is ACL-restricted: ", d.as_str()),
            ServerGetError::Network(d) => joined(
                "network error reaching ServiceNow: ",
                d.as_str(),
            ),
            ServerGetError::Disambiguation { selector, matched } => {
                let mut out: String = "multiple servers matched ".to_owned();
                out.append(selector.as_str());
                out.append(" (");
                out.append(decimal_text(*matched as u64).as_str());
                out.append(" matches)");
                out
            },
            ServerGetError::Hydration(d) => joined(
                "server record failed hydration: ",
                d.as_str(),
            ),
            ServerGetError::Other(d) => d.clone(),
        }
    }
}

pub open spec fn error_text(e: ServerGetErrorView) -> Seq<char> {
    match e {
        ServerGetErrorView::NotFound => "server not found"@,
        ServerGetErrorView::AclRestricted(d) => "server is ACL-restricted: "@ + d,
        ServerGetErrorView::Network(d) => "network error reaching ServiceNow: "@ + d,
        ServerGetErrorView::Disambiguation { selector, matched } => "multiple servers matched "@
            + selector + " ("@ + decimal(matched) + " matches)"@,
        ServerGetErrorView::Hydration(d) => "server record failed hydration: "@ + d,
        ServerGetErrorView::Other(d) => d,
    }
}

// --- what is asked ---

#[derive(Debug, Clone, PartialEq, Eq)]
pub enum ServerLookup {
    SysId(String),
    ExactName(String),
    IpAddress(String),
}

/// How a server is asked for: by its id, with the form that the row is read in, or
/// by a query and the selector that the query stands for.
pub enum ServerRequest {
    Read { form: Query, sys_id: String },
    Find { query: Query, selector: String },
}

/// The query for the servers of one value in a field. Two rows are enough to
/// tell that more than one matches; the class is left open, so that servers of
/// every class are found.
pub open spec fn exact_query(field: Seq<char>, value: Seq<char>) -> QueryView {
    QueryView::of(SERVER_TABLE@).display(DisplayMode::Both).no_links().limit(2).ascending(
        "name"@,
    ).equals(field, value)
}

pub open spec fn read_form() -> QueryView {
    QueryView::of(SERVER_TABLE@).display(DisplayMode::Both).no_links()
}

pub fn server_exact_query(field: &str, value: &str) -> (r: Query)
    ensures
        r@ == exact_query(field@, value@),
{
    Query::of(SERVER_TABLE).display(DisplayMode::Both).no_links().limit(2).ascending(
        "name",
    ).equals(field, value)
}

/// Plans the reading of a server.
pub fn plan_server_get(lookup: ServerLookup) -> (r: Result<ServerRequest, ServerGetError>)
    ensures
        match lookup {
            ServerLookup::SysId(id) => match r {
                Ok(ServerRequest::Read { form, sys_id }) => sys_id_of(id@) == Some(sys_id@) && form@
                    == read_form(),
                Ok(_) => false,
                Err(e) => sys_id_of(id@) is None && e@ == ServerGetErrorView::Other(bad_sys_id()),
            },
            ServerLookup::ExactName(name) => match r {
                Ok(ServerRequest::Find { query, selector }) => given(Some(name@)) is Some
                    && query@ == exact_query("name"@, given(Some(name@))->0) && selector@ == "name="@
                    + given(Some(name@))->0,
                Ok(_) => false,
                Err(e) => given(Some(name@)) is None && e@ == ServerGetErrorView::Other(
                    "server name cannot be empty"@,
                ),
            },
            ServerLookup::IpAddress(ip) => match r {
                Ok(ServerRequest::Find { query, selector }) => given(Some(ip@)) is Some
                    && query@ == exact_query("ip_address"@, given(Some(ip@))->0) && selector@
                    == "ip_address="@ + given(Some(ip@))->0,
                Ok(_) => false,
                Err(e) => given(Some(ip@)) is None && e@ == ServerGetErrorView::Other(
                    "server IP address cannot be empty"@,
                ),
            },
        },
{
    match lookup {
        ServerLookup::SysId(id) => match normalize_record_lookup_sys_id(id.as_str()) {
            Ok(sys_id) => Ok(
                ServerRequest::Read {
                    form: Query::of(SERVER_TABLE).display(DisplayMode::Both).no_links(),
                    sys_id,
                },
            ),
            Err(e) => Err(ServerGetError::Other(e)),
        },
        ServerLookup::ExactName(name) => match given_text(Some(name.as_str())) {
            Some(n) => Ok(
                ServerRequest::Find {
                    query: server_exact_query("name", n.as_str()),
                    selector: joined("name=", n.as_str()),
                },
            ),
            None => Err(ServerGetError::Other("server name cannot be empty".to_owned())),
        },
        ServerLookup::IpAddress(ip) => match given_text(Some(ip.as_str())) {
            Some(n) => Ok(
                ServerRequest::Find {
                    query: server_exact_query("ip_address", n.as_str()),
                    selector: joined("ip_address=", n.as_str()),
                },
            ),
            None => Err(ServerGetError::Other("server IP address cannot be empty".to_owned())),
        },
    }
}

// --- what the reply means ---

/// What went wrong with a reading by id, if anything: that the provider knows no
/// such record is not a failure of the request.
pub open spec fn read_error(reply: Result<Row, ServerFailure>) -> Option<ServerGetErrorView> {
    match reply {
        Ok(_) => None,
        Err(f) => if f.failure == Failure::Api(404) {
            Some(ServerGetErrorView::NotFound)
        } else {
            Some(classified(f))
        },
    }
}

pub fn judge_server_read(reply: Result<Row, ServerFailure>) -> (r: Result<Row, ServerGetError>)
    ensures
        match r {
            Ok(row) => read_error(reply) is None && reply == Ok::<Row, ServerFailure>(row),
            Err(e) => read_error(reply) == Some(e@),
        },
{
    match reply {
        Ok(row) => Ok(row),
        Err(f) => {
            let absent: bool = match f.failure {
                Failure::Api(404) => true,
                _ => false,
            };
            if absent {
                Err(ServerGetError::NotFound)
            } else {
                Err(ServerGetError::from_api(f))
            }
        },
    }
}

/// What went wrong with a query, if anything.
pub open spec fn find_error(
    reply: Result<Vec<Row>, ServerFailure>,
    selector: Seq<char>,
) -> Option<ServerGetErrorView> {
    match reply {
        Ok(rows) => if rows@.len() == 0 {
            Some(ServerGetErrorView::NotFound)
        } else if rows@.len() > 1 {
            Some(ServerGetErrorView::Disambiguation { selector, matched: rows@.len() })
        } else {
            None
        },
        Err(f) => Some(classified(f)),
    }
}

pub fn judge_server_find(reply: Result<Vec<Row>, ServerFailure>, selector: String) -> (r: Result<
    Row,
    ServerGetError,
>)
    ensures
        match r {
            Ok(row) => find_error(reply, selector@) is None && reply is Ok && row == reply->Ok_0@[0],
            Err(e) => find_error(reply, selector@) == Some(e@),
        },
{
    match reply {
        Ok(rows) => {
            let mut list: Vec<Row> = rows;
            if list.len() == 0 {
                return Err(ServerGetError::NotFound);
            }
            if list.len() > 1 {
                return Err(ServerGetError::Disambiguation { selector, matched: list.len() });
            }
            Ok(list.remove(0))
        },
        Err(f) => Err(ServerGetError::from_api(f)),
    }
}

/// What becomes of a row that was found: `read` tells whether it can be read as a
/// server, and why not.
pub fn hydrated(row: Row, read: Result<(), String>) -> (r: Result<Row, ServerGetError>)
    ensures
        match read {
            Ok(_) => r == Ok::<Row, ServerGetError>(row),
            Err(d) => r == Err::<Row, ServerGetError>(ServerGetError::Hydration(d)),
        },
{
    match read {
        Ok(_) => Ok(row),
        Err(d) => Err(ServerGetError::Hydration(d)),
    }
}

/// What becomes of a server that was to be kept locally: `written` is nothing where
/// it was not to be kept.
pub fn kept_server(row: Row, written: Option<Result<(), String>>) -> (r: Result<Row, ServerGetError>)
    ensures
        match written {
            Some(Err(d)) => r == Err::<Row, ServerGetError>(ServerGetError::Other(d)),
            _ => r == Ok::<Row, ServerGetError>(row),
        },
{
    match written {
        Some(Err(d)) => Err(ServerGetError::Other(d)),
        _ => Ok(row),
    }
}

/// A server counts as absent only where the provider says so: with an answer
/// that there is no such record, or with an empty result. A failure to reach the
/// provider and a refusal never count as absence.
pub proof fn absence_is_confirmed(
    read: Result<Row, ServerFailure>,
    found: Result<Vec<Row>, ServerFailure>,
    selector: Seq<char>,
)
    ensures
        read_error(read) == Some(ServerGetErrorView::NotFound) <==> read is Err
            && read->Err_0.failure == Failure::Api(404),
        find_error(found, selector) == Some(ServerGetErrorView::NotFound) <==> found is Ok
            && found->Ok_0@.len() == 0,
        read is Err && (read->Err_0.failure is Http || read->Err_0.failure is RateLimited)
            ==> read_error(read) == Some(ServerGetErrorView::Network(read->Err_0.message@)),
        found is Err && (found->Err_0.failure is Http || found->Err_0.failure is RateLimited)
            ==> find_error(found, selector) == Some(
            ServerGetErrorView::Network(found->Err_0.message@),
        ),
        read is Err && (read->Err_0.failure == Failure::Api(401) || read->Err_0.failure
            == Failure::Api(403) || read->Err_0.failure is Auth) ==> read_error(read) == Some(
            ServerGetErrorView::AclRestricted(read->Err_0.message@),
        ),
{
}

/// The plain result of a reading: that the server is absent is no error.
pub fn flatten_server_get<T>(result: Result<T, ServerGetError>) -> (r: Result<Option<T>, String>)
    ensures
        match result {
            Ok(server) => r == Ok::<Option<T>, String>(Some(server)),
            Err(e) => if e@ is NotFound {
                r == Ok::<Option<T>, String>(None)
            } else {
                r is Err && r->Err_0@ == error_text(e@)
            },
        },
{
    match result {
        Ok(server) => Ok(Some(server)),
        Err(ServerGetError::NotFound) => Ok(None),
        Err(e) => Err(e.message()),
    }
}

// --- searching ---

/// A search for servers. `class` is the name of their table, and `ci_owner_group`
/// the sys_id of the group that owns them or a part of its name.
pub struct ServerQuery {
    pub name: Option<String>,
    pub ip_address: Option<String>,
    pub class: Option<String>,
    pub text: Option<String>,
    pub ci_owner_group: Option<String>,
}

/// The query for a search. `leaf_tables` are the tables that hold servers.
#[verifier::opaque]
pub open spec fn server_search(
    q: ServerQuery,
    leaf_tables: Seq<Seq<char>>,
) -> QueryView {
    let base = QueryView::of(SERVER_TABLE@).display(DisplayMode::Both).no_links().ascending(
        "name"@,
    );
    let classed = match given(text_of(q.class)) {
        Some(class) => if class != SERVER_TABLE@ {
            base.equals("sys_class_name"@, class)
        } else {
            base.in_list("sys_class_name"@, leaf_tables)
        },
        None => base.in_list("sys_class_name"@, leaf_tables),
    };
    let named = contains_given(classed, "name"@, given(text_of(q.name)));
    let placed = equals_given(named, "ip_address"@, given(text_of(q.ip_address)));
    referring(placed, "managed_by_group"@, text_of(q.ci_owner_group))
}

pub fn server_query_base_query(q: &ServerQuery, leaf_tables: &Vec<String>) -> (r: Query)
    ensures
        r@ == server_search(*q, texts(leaf_tables@)),
{
    proof {
        reveal(server_search);
    }
    let base: Query = Query::of(SERVER_TABLE).display(DisplayMode::Both).no_links().ascending(
        "name",
    );
    let mut out: Query = match given_text(borrowed(&q.class)) {
        Some(class) => if !same(class.as_str(), SERVER_TABLE) {
            base.equals("sys_class_name", class.as_str())
        } else {
            base.in_list("sys_class_name", leaf_tables)
        },
        None => base.in_list("sys_class_name", leaf_tables),
    };
    if let Some(v) = given_text(borrowed(&q.name)) {
        out = out.contains("name", v.as_str());
    }
    if let Some(v) = given_text(borrowed(&q.ip_address)) {
        out = out.equals("ip_address", v.as_str());
    }
    reference_filter(out, "managed_by_group", borrowed(&q.ci_owner_group))
}

/// A number of rows as a query takes it: no more than 32 bits hold.
pub open spec fn capped(n: int) -> u32 {
    if n > u32::MAX {
        u32::MAX
    } else {
        n as u32
    }
}

fn cap(n: usize) -> (r: u32)
    ensures
        r == capped(n as int),
{
    if n > 4294967295 {
        4294967295
    } else {
        n as u32
    }
}

/// The query for a search without a text.
pub fn server_base_query(q: &ServerQuery, leaf_tables: &Vec<String>, limit: usize) -> (r: Query)
    ensures
        r@ == server_search(*q, texts(leaf_tables@)).limit(capped(limit as int)),
{
    server_query_base_query(q, leaf_tables).limit(cap(limit))
}

/// The query for one page of a search; a text is looked for in the name, in the
/// description and in the address.
pub open spec fn server_page(
    q: ServerQuery,
    leaf_tables: Seq<Seq<char>>,
    limit: int,
    offset: int,
) -> QueryView {
    let base = server_search(q, leaf_tables).limit(capped(limit)).offset(capped(offset));
    match given(text_of(q.text)) {
        Some(t) => base.contains("name"@, t).when(
            true,
            "short_description"@,
            Operator::Contains,
            t,
        ).when(true, "ip_address"@, Operator::Contains, t),
        None => base,
    }
}

pub fn server_page_query(
    q: &ServerQuery,
    leaf_tables: &Vec<String>,
    limit: usize,
    offset: usize,
) -> (r: Query)
    ensures
        r@ == server_page(*q, texts(leaf_tables@), limit as int, offset as int),
{
    let base: Query = server_query_base_query(q, leaf_tables).limit(cap(limit)).offset(
        cap(offset),
    );
    match given_text(borrowed(&q.text)) {
        Some(t) => base.contains("name", t.as_str()).when(
            true,
            "short_description",
            Operator::Contains,
            t.as_str(),
        ).when(true, "ip_address", Operator::Contains, t.as_str()),
        None => base,
    }
}

} // verus!
