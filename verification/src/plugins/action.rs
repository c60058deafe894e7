//! Action plugins: the changes a plugin asks for and what its answer means.
use vstd::prelude::*;

use crate::encoding::{be_value, read_be};
use crate::http_head::{response_head_checked, response_head_ok};
use crate::http::{
    parse_response, parsed_response, response_complete, body_replaced, entries_after_set, headers_set, with_headers, HeaderInput, HeaderVal, Request, Response,
    SpecRequest, SpecResponse,
};

pub mod exec_env;

verus! {

/// A change that a plugin asks for.
#[derive(Debug)]
pub enum MiddlewareOp {
    /// Replace the path of the request.
    SetPath(String),
    /// Set a header.
    SetHeader(String, String),
    /// Replace the body.
    SetBody(Vec<u8>),
}

/// A request after one change.
pub open spec fn request_after_op(r: SpecRequest, op: MiddlewareOp) -> SpecRequest {
    match op {
        MiddlewareOp::SetPath(p) => SpecRequest { path: p@, ..r },
        MiddlewareOp::SetHeader(k, v) => SpecRequest {
            headers: entries_after_set(r.headers, k@, HeaderVal::Text(v@)),
            ..r
        },
        MiddlewareOp::SetBody(d) => SpecRequest { body: d@, ..r },
    }
}

/// A request after each of the changes in turn.
pub open spec fn request_after_ops(r: SpecRequest, ops: Seq<MiddlewareOp>) -> SpecRequest
    decreases ops.len(),
{
    if ops.len() == 0 {
        r
    } else {
        request_after_op(request_after_ops(r, ops.drop_last()), ops.last())
    }
}

/// A response after one change; a response has no path to change.
pub open spec fn response_after_op(r: SpecResponse, op: MiddlewareOp) -> SpecResponse {
    match op {
        MiddlewareOp::SetPath(_) => r,
        MiddlewareOp::SetHeader(k, v) => with_headers(
            r,
            entries_after_set(r.headers, k@, HeaderVal::Text(v@)),
        ),
        MiddlewareOp::SetBody(d) => body_replaced(r, d@),
    }
}

/// A response after each of the changes in turn.
pub open spec fn response_after_ops(r: SpecResponse, ops: Seq<MiddlewareOp>) -> SpecResponse
    decreases ops.len(),
{
    if ops.len() == 0 {
        r
    } else {
        response_after_op(response_after_ops(r, ops.drop_last()), ops.last())
    }
}

/// Applies the changes that the plugin asked for to the request, in order.
pub fn apply_req_ops(req: &mut Request, ops: &Vec<MiddlewareOp>)
    ensures
        final(req)@ == request_after_ops(old(req)@, ops@),
        final(req).method == old(req).method,
{
    let mut i: usize = 0;
    while i < ops.len()
        invariant
            0 <= i <= ops@.len(),
            req@ == request_after_ops(old(req)@, ops@.take(i as int)),
            req.method == old(req).method,
        decreases ops@.len() - i,
    {
        proof {
            assert(ops@.take(i + 1).drop_last() =~= ops@.take(i as int));
        }
        match &ops[i] {
            MiddlewareOp::SetPath(path) => {
                req.set_path(path.as_str());
            },
            MiddlewareOp::SetHeader(key, value) => {
                headers_set(&mut req.headers, key.as_str(), HeaderInput::Owned(value.clone()));
            },
            MiddlewareOp::SetBody(data) => {
                req.set_body(data.clone());
            },
        }
        i = i + 1;
    }
    assert(ops@.take(ops@.len() as int) =~= ops@);
}

/// Applies the changes that the plugin asked for to the response, in order;
/// a new path is ignored.
pub fn apply_resp_ops(resp: &mut Response, ops: &Vec<MiddlewareOp>)
    ensures
        final(resp)@ == response_after_ops(old(resp)@, ops@),
{
    let mut i: usize = 0;
    while i < ops.len()
        invariant
            0 <= i <= ops@.len(),
            resp@ == response_after_ops(old(resp)@, ops@.take(i as int)),
        decreases ops@.len() - i,
    {
        proof {
            assert(ops@.take(i + 1).drop_last() =~= ops@.take(i as int));
        }
        match &ops[i] {
            MiddlewareOp::SetPath(_) => {},
            MiddlewareOp::SetHeader(key, value) => {
                resp.add_header(key.as_str(), HeaderInput::Owned(value.clone()));
            },
            MiddlewareOp::SetBody(data) => {
                resp.set_body(data.clone());
            },
        }
        i = i + 1;
    }
    assert(ops@.take(ops@.len() as int) =~= ops@);
}

/// What the value that a plugin's `apply_req` returned means.
#[derive(Debug, PartialEq, Eq, Structural)]
pub enum PluginReturn {
    /// Go on with the request (`-1`).
    Continue,
    /// Answer the request with the response that the plugin wrote at this
    /// address of its memory (a positive value).
    Respond(usize),
    /// Any other value: it is logged, and the request goes on.
    Unexpected(i32),
}

/// Reads the value that a plugin's `apply_req` returned.
pub fn interpret_return(value: i32) -> (res: PluginReturn)
    ensures
        value == -1 ==> res == PluginReturn::Continue,
        value > 0 ==> res == PluginReturn::Respond(value as usize),
        value != -1 && value <= 0 ==> res == PluginReturn::Unexpected(value),
{
    if value == -1 {
        PluginReturn::Continue
    } else if value > 0 {
        PluginReturn::Respond(value as usize)
    } else {
        PluginReturn::Unexpected(value)
    }
}

/// The size of the response a plugin wrote: the first four bytes at its
/// address, big-endian.
pub fn response_size(bytes: &[u8]) -> (res: u32)
    requires
        bytes@.len() == 4,
    ensures
        res as nat == be_value(bytes@),
{
    let v = read_be(bytes, 0, 4);
    assert(bytes@.subrange(0, 4) =~= bytes@);
    proof {
        crate::encoding::lemma_be_value_bound(bytes@);
        assert(crate::encoding::pow256(4) == 4294967296) by {
            reveal_with_fuel(crate::encoding::pow256, 5);
        }
    }
    v as u32
}

/// The bytes of the response that a plugin wrote at `address` of its
/// memory: the size in the first four bytes, then that many bytes.
pub open spec fn returned_bytes(memory: Seq<u8>, address: int) -> Seq<u8> {
    memory.subrange(address + 4, address + 4 + be_value(memory.subrange(address, address + 4)))
}

/// Reads the response that a plugin wrote at `address` of its memory and
/// parses it. The answer is `None` where the original gives up with a
/// crash: where the bytes do not hold a whole response that parses, as the
/// plugin broke its contract. It is `None` too where the bytes do not begin
/// with a head of the shape `response_head_ok` describes (an ASCII head with
/// `key: value` header lines and decimal `Content-Length` values no larger
/// than the bytes), which are not handed to the parser, as it could fail on
/// them.
pub fn returned_response(memory: &[u8], address: usize) -> (res: Option<Response>)
    requires
        address + 4 <= memory@.len(),
        address + 4 + be_value(memory@.subrange(address as int, address + 4)) <= memory@.len(),
    ensures
        !response_head_ok(returned_bytes(memory@, address as int)) ==> res is None,
        response_head_ok(returned_bytes(memory@, address as int)) ==> match res {
            Some(r) => response_complete(returned_bytes(memory@, address as int)) && parsed_response(
                returned_bytes(memory@, address as int),
            ) == Some(r@),
            None => !response_complete(returned_bytes(memory@, address as int)) || parsed_response(
                returned_bytes(memory@, address as int),
            ) is None,
        },
{
    let n = memory.len();
    assert(n == memory@.len());
    let size = response_size(vstd::slice::slice_subrange(memory, address, address + 4));
    let start = address + 4;
    let end = start + size as usize;
    let data = vstd::slice::slice_subrange(memory, start, end);
    if !response_head_checked(data) {
        return None;
    }
    let (done, parsed) = parse_response(data);
    if !done {
        return None;
    }
    parsed
}

} // verus!
