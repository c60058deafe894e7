//! The routes of the web server through which the nodes of the cluster
//! talk to each other.
use vstd::prelude::*;
use vstd::utf8::{encode_utf8, is_char_boundary};

use crate::http::{header_entries, headers_append, headers_new, HeaderInput, HeaderVal, Request, Response};
use crate::rules::matcher::{byte_prefix, starts_with_bytes};

verus! {

/// What a request to a node asks for.
#[derive(Debug, PartialEq, Eq, Structural)]
pub enum ClusterRoute {
    /// A write that only the leader takes (`/leader/write`).
    LeaderWrite,
    /// Another request for the leader, which has no answer.
    LeaderOther,
    /// Entries to append to the log (`/entries`).
    AppendEntries,
    /// A snapshot to install (`/snapshot`).
    InstallSnapshot,
    /// A vote (`/vote`).
    Vote,
    /// A path that no route serves.
    Unknown,
}

/// Whether comparing the path with `prefix` cuts it at a character
/// boundary (slicing a string inside a character panics).
pub open spec fn cut_ok(path: Seq<char>, prefix: Seq<char>) -> bool {
    encode_utf8(path).len() < encode_utf8(prefix).len() || is_char_boundary(
        encode_utf8(path),
        encode_utf8(prefix).len() as int,
    )
}

/// The route of a request with this path: the leader's routes under
/// `/leader`, the others by their prefix, each tried in order.
pub open spec fn route_of(path: Seq<char>) -> ClusterRoute {
    if byte_prefix("/leader"@, path) {
        if byte_prefix("/leader/write"@, path) {
            ClusterRoute::LeaderWrite
        } else {
            ClusterRoute::LeaderOther
        }
    } else if byte_prefix("/entries"@, path) {
        ClusterRoute::AppendEntries
    } else if byte_prefix("/snapshot"@, path) {
        ClusterRoute::InstallSnapshot
    } else if byte_prefix("/vote"@, path) {
        ClusterRoute::Vote
    } else {
        ClusterRoute::Unknown
    }
}

/// Whether the prefixes tried, in order, cut the path only at character
/// boundaries.
pub open spec fn route_cut_ok(path: Seq<char>) -> bool {
    &&& cut_ok(path, "/leader"@)
    &&& byte_prefix("/leader"@, path) ==> cut_ok(path, "/leader/write"@)
    &&& !byte_prefix("/leader"@, path) ==> {
        &&& cut_ok(path, "/entries"@)
        &&& !byte_prefix("/entries"@, path) ==> cut_ok(path, "/snapshot"@)
        &&& !byte_prefix("/entries"@, path) && !byte_prefix("/snapshot"@, path) ==> cut_ok(
            path,
            "/vote"@,
        )
    }
}

/// Whether comparing the path with `prefix` cuts it at a character
/// boundary.
fn cuts_at_boundary(path: &str, prefix: &str) -> (res: bool)
    ensures
        res == cut_ok(path@, prefix@),
{
    let path_len = path.as_bytes().len();
    let prefix_len = prefix.as_bytes().len();
    path_len < prefix_len || path.is_char_boundary(prefix_len)
}

/// Checks whether routing the request cuts its path only at character
/// boundaries, which `route` needs.
pub fn route_cuts_ok(req: &Request) -> (res: bool)
    ensures
        res == route_cut_ok(req.path@),
{
    let path = req.path.as_str();
    if !cuts_at_boundary(path, "/leader") {
        return false;
    }
    if starts_with_bytes(path, "/leader") {
        return cuts_at_boundary(path, "/leader/write");
    }
    if !cuts_at_boundary(path, "/entries") {
        return false;
    }
    if starts_with_bytes(path, "/entries") {
        return true;
    }
    if !cuts_at_boundary(path, "/snapshot") {
        return false;
    }
    if starts_with_bytes(path, "/snapshot") {
        return true;
    }
    cuts_at_boundary(path, "/vote")
}

/// The route of a request to a node.
pub fn route(req: &Request) -> (res: ClusterRoute)
    requires
        route_cut_ok(req.path@),
    ensures
        res == route_of(req.path@),
{
    let path = req.path.as_str();
    if starts_with_bytes(path, "/leader") {
        if starts_with_bytes(path, "/leader/write") {
            ClusterRoute::LeaderWrite
        } else {
            ClusterRoute::LeaderOther
        }
    } else if starts_with_bytes(path, "/entries") {
        ClusterRoute::AppendEntries
    } else if starts_with_bytes(path, "/snapshot") {
        ClusterRoute::InstallSnapshot
    } else if starts_with_bytes(path, "/vote") {
        ClusterRoute::Vote
    } else {
        ClusterRoute::Unknown
    }
}

/// The answer that carries a JSON body: status 200 over HTTP/1.1 with the
/// content type and length.
pub fn json_response(body: Vec<u8>) -> (res: Response)
    ensures
        res@.protocol == "HTTP/1.1"@,
        res@.status_code == 200,
        res@.headers == seq![
            ("Content-Type"@, HeaderVal::Text("application/json"@)),
            ("Content-Length"@, HeaderVal::Number(body@.len() as usize)),
        ],
        res@.body == body@,
{
    let mut headers = headers_new();
    headers_append(&mut headers, "Content-Type", HeaderInput::Static("application/json"));
    headers_append(&mut headers, "Content-Length", HeaderInput::Number(body.len()));
    assert(header_entries(headers) =~= seq![
        ("Content-Type"@, HeaderVal::Text("application/json"@)),
        ("Content-Length"@, HeaderVal::Number(body@.len() as usize)),
    ]);
    Response::new("HTTP/1.1", 200, headers, body)
}

} // verus!
