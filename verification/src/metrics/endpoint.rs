//! The metrics endpoint: which requests it answers, and how.
use vstd::prelude::*;

use crate::http::{
    entries_after_set, headers_new, headers_set, parse_request, parsed_request, HeaderInput, HeaderVal, Request,
    Response, SpecResponse,
};
use crate::http_head::{request_head_checked, request_head_ok};
use crate::text::str_eq;

verus! {

/// The answer to a request for `/metrics` over `protocol` with the encoded
/// metrics `body`.
pub open spec fn metrics_answer_of(protocol: Seq<char>, body: Seq<u8>) -> SpecResponse {
    SpecResponse {
        protocol: protocol,
        status_code: 200,
        headers: seq![("Content-Length"@, HeaderVal::Number(body.len() as usize))],
        body: body,
    }
}

/// Answers a request for `/metrics` with the encoded metrics `body`:
/// status 200, the request's protocol and a `Content-Length` header; other
/// paths get no answer.
pub fn metrics_response(req: &Request, body: Vec<u8>) -> (res: Option<Response>)
    ensures
        req.path@ != "/metrics"@ ==> res is None,
        req.path@ == "/metrics"@ ==> (res matches Some(r) && r@ == metrics_answer_of(req.protocol@, body@)),
{
    if !str_eq(req.path.as_str(), "/metrics") {
        return None;
    }
    let mut headers = headers_new();
    headers_set(&mut headers, "Content-Length", HeaderInput::Number(body.len()));
    assert(entries_after_set(
        Seq::<(Seq<char>, HeaderVal)>::empty(),
        "Content-Length"@,
        HeaderVal::Number(body@.len() as usize),
    ) =~= seq![("Content-Length"@, HeaderVal::Number(body@.len() as usize))]);
    Some(Response::new(req.protocol.as_str(), 200, headers, body))
}

/// Answers the bytes received on a connection of the endpoint: a request
/// that parses and asks for `/metrics` gets the encoded metrics `body` with
/// status 200, its own protocol and a `Content-Length` header; bytes that
/// do not parse, and other paths, get no answer. Bytes that do not begin
/// with a head of the shape `request_head_ok` describes (an ASCII head with
/// `key: value` header lines and decimal `Content-Length` values no larger
/// than the bytes) are not handed to the parser, which could fail on them,
/// and get no answer either.
pub fn metrics_answer(data: &[u8], body: Vec<u8>) -> (res: Option<Response>)
    ensures
        !request_head_ok(data@) ==> res is None,
        request_head_ok(data@) ==> match parsed_request(data@) {
            None => res is None,
            Some(req) => if req.path == "/metrics"@ {
                res matches Some(r) && r@ == metrics_answer_of(req.protocol, body@)
            } else {
                res is None
            },
        },
{
    if !request_head_checked(data) {
        return None;
    }
    match parse_request(data) {
        None => None,
        Some(req) => metrics_response(&req, body),
    }
}

} // verus!
