//! The HTTP request and response values that rules work on.
//!
//! Header collections are `stream_httparse::Headers`; the items of the
//! library read them only through the trusted functions of this module.
use vstd::prelude::*;

use stream_httparse::header::HeaderValue;
use stream_httparse::streaming_parser::{ReqParser, RespParser};
use stream_httparse::{Headers, Method};

use crate::http_head::{request_head_ok, response_head_ok};
use crate::text::{decimal, usize_to_string};

verus! {

#[verifier::external_type_specification]
#[verifier::external_body]
pub struct ExHeaders<'a>(Headers<'a>);

#[verifier::external_type_specification]
#[verifier::external_body]
pub struct ExMethod(Method);

/// The value of a header as the rules see it: text or a number.
pub enum HeaderVal {
    Text(Seq<char>),
    Number(usize),
}

/// The entries of a header collection, in order: each key by its
/// characters and each value as text or number.
pub uninterp spec fn header_entries(h: Headers<'static>) -> Seq<(Seq<char>, HeaderVal)>;

/// Whether two header keys are equal ignoring case, as
/// `caseless::default_caseless_match_str` decides it.
pub uninterp spec fn keys_match(a: Seq<char>, b: Seq<char>) -> bool;

/// The position of the first entry at or after `i` whose key matches `key`.
pub open spec fn header_index_from(entries: Seq<(Seq<char>, HeaderVal)>, key: Seq<char>, i: int) -> Option<int>
    decreases entries.len() - i,
{
    if i < 0 || i >= entries.len() {
        None
    } else if keys_match(entries[i].0, key) {
        Some(i)
    } else {
        header_index_from(entries, key, i + 1)
    }
}

/// Whether each character of `s` is ASCII.
pub open spec fn ascii_text(s: Seq<char>) -> bool {
    forall|i: int| 0 <= i < s.len() ==> (#[trigger] s[i] as u32) < 128
}

/// A character with ASCII capitals made small.
pub open spec fn ascii_fold(c: char) -> char {
    if 'A' <= c <= 'Z' {
        ((c as u32) + 32) as char
    } else {
        c
    }
}

/// Whether two texts are equal up to ASCII case.
pub open spec fn ascii_caseless_eq(a: Seq<char>, b: Seq<char>) -> bool {
    &&& a.len() == b.len()
    &&& forall|i: int| 0 <= i < a.len() ==> ascii_fold(#[trigger] a[i]) == ascii_fold(b[i])
}

/// Whether every key of the entries is ASCII.
pub open spec fn ascii_keys(entries: Seq<(Seq<char>, HeaderVal)>) -> bool {
    forall|i: int| 0 <= i < entries.len() ==> ascii_text(#[trigger] entries[i].0)
}

/// The position of the first entry at or after `i` whose key equals `key`
/// up to ASCII case.
pub open spec fn ascii_index_from(entries: Seq<(Seq<char>, HeaderVal)>, key: Seq<char>, i: int) -> Option<int>
    decreases entries.len() - i,
{
    if i < 0 || i >= entries.len() {
        None
    } else if ascii_caseless_eq(entries[i].0, key) {
        Some(i)
    } else {
        ascii_index_from(entries, key, i + 1)
    }
}

/// The value of the first entry whose key equals `key` up to ASCII case.
pub open spec fn ascii_lookup(entries: Seq<(Seq<char>, HeaderVal)>, key: Seq<char>) -> Option<HeaderVal> {
    match ascii_index_from(entries, key, 0) {
        Some(i) => Some(entries[i].1),
        None => None,
    }
}

/// The value of the first entry whose key matches `key`.
pub open spec fn entries_lookup(entries: Seq<(Seq<char>, HeaderVal)>, key: Seq<char>) -> Option<HeaderVal> {
    match header_index_from(entries, key, 0) {
        Some(i) => Some(entries[i].1),
        None => None,
    }
}

/// The value of the first header whose key matches `key`.
pub open spec fn header_lookup(h: Headers<'static>, key: Seq<char>) -> Option<HeaderVal> {
    entries_lookup(header_entries(h), key)
}

/// The entries after `set`: the first entry with a matching key is removed
/// and the new entry is added at the end.
pub open spec fn entries_after_set(entries: Seq<(Seq<char>, HeaderVal)>, key: Seq<char>, value: HeaderVal) -> Seq<(Seq<char>, HeaderVal)> {
    match header_index_from(entries, key, 0) {
        Some(i) => entries.remove(i).push((key, value)),
        None => entries.push((key, value)),
    }
}

/// The search from `k` finds the first matching entry at or after `k`.
proof fn lemma_index_from(entries: Seq<(Seq<char>, HeaderVal)>, key: Seq<char>, k: int)
    requires
        0 <= k,
    ensures
        match header_index_from(entries, key, k) {
            Some(i) => k <= i < entries.len() && keys_match(entries[i].0, key) && forall|j: int|
                k <= j < i ==> !keys_match(#[trigger] entries[j].0, key),
            None => forall|j: int| k <= j < entries.len() ==> !keys_match(#[trigger] entries[j].0, key),
        },
    decreases entries.len() - k,
{
    if k < entries.len() && !keys_match(entries[k].0, key) {
        lemma_index_from(entries, key, k + 1);
    }
}

/// A search from `k` that passes no match before `n` and meets one at `n`
/// stops there.
proof fn lemma_index_from_at(entries: Seq<(Seq<char>, HeaderVal)>, key: Seq<char>, k: int, n: int)
    requires
        0 <= k <= n < entries.len(),
        keys_match(entries[n].0, key),
        forall|j: int| k <= j < n ==> !keys_match(#[trigger] entries[j].0, key),
    ensures
        header_index_from(entries, key, k) == Some(n),
    decreases n - k,
{
    if k < n {
        lemma_index_from_at(entries, key, k + 1, n);
    }
}

/// Reading a header right after setting it gives the value that was set:
/// after `set` with a key that matches itself (as `headers_set` ensures),
/// the lookup of that key finds the new value, provided no more than one
/// entry matched the key before.
pub proof fn lemma_set_then_lookup(entries: Seq<(Seq<char>, HeaderVal)>, key: Seq<char>, value: HeaderVal)
    requires
        keys_match(key, key),
        forall|i: int, j: int|
            0 <= i < j < entries.len() && #[trigger] keys_match(entries[i].0, key) ==> !keys_match(
                #[trigger] entries[j].0,
                key,
            ),
    ensures
        entries_lookup(entries_after_set(entries, key, value), key) == Some(value),
{
    lemma_index_from(entries, key, 0);
    let t = entries_after_set(entries, key, value);
    let n = t.len() - 1;
    match header_index_from(entries, key, 0) {
        Some(i) => {
            let r = entries.remove(i);
            assert forall|j: int| 0 <= j < n implies !keys_match(#[trigger] t[j].0, key) by {
                assert(t[j] == r[j]);
                if j < i {
                    assert(r[j] == entries[j]);
                } else {
                    assert(r[j] == entries[j + 1]);
                }
            }
        },
        None => {
            assert forall|j: int| 0 <= j < n implies !keys_match(#[trigger] t[j].0, key) by {
                assert(t[j] == entries[j]);
            }
        },
    }
    lemma_index_from_at(t, key, 0, n);
}

/// A header value read from a collection.
#[derive(Debug)]
pub enum HeaderContent {
    /// A textual value.
    Text(String),
    /// A numeric value.
    Number(usize),
}

impl View for HeaderContent {
    type V = HeaderVal;

    open spec fn view(&self) -> HeaderVal {
        match self {
            HeaderContent::Text(s) => HeaderVal::Text(s@),
            HeaderContent::Number(n) => HeaderVal::Number(*n),
        }
    }
}

/// A header value written out as text (numbers in decimal).
pub open spec fn value_text(v: HeaderVal) -> Seq<char> {
    match v {
        HeaderVal::Text(s) => s,
        HeaderVal::Number(n) => decimal(n as nat),
    }
}

/// Writes a header value as text.
pub fn content_text(v: &HeaderContent) -> (res: String)
    ensures
        res@ == value_text(v@),
{
    match v {
        HeaderContent::Text(s) => s.clone(),
        HeaderContent::Number(n) => usize_to_string(*n),
    }
}

/// A header value to be written into a collection.
pub enum HeaderInput {
    /// A fixed text.
    Static(&'static str),
    /// An owned text.
    Owned(String),
    /// A number.
    Number(usize),
}

impl View for HeaderInput {
    type V = HeaderVal;

    open spec fn view(&self) -> HeaderVal {
        match self {
            HeaderInput::Static(s) => HeaderVal::Text(s@),
            HeaderInput::Owned(s) => HeaderVal::Text(s@),
            HeaderInput::Number(n) => HeaderVal::Number(*n),
        }
    }
}

/// Creates an empty header collection.
///
/// Trusted: `Headers::new` starts with no entries.
#[verifier::external_body]
pub fn headers_new() -> (h: Headers<'static>)
    ensures
        header_entries(h) == Seq::<(Seq<char>, HeaderVal)>::empty(),
{
    Headers::new()
}

/// Looks up the value of the first header whose key matches `key`.
///
/// Trusted: `Headers::get` returns the value of the first entry whose key
/// is equal to `key` under `HeaderKey`'s equality, which is
/// `caseless::default_caseless_match_str`; the value is handed out as text
/// for `Str`/`StrRef` and as a number for `NumberUsize`. On ASCII text the
/// default case folding of `caseless` makes `A`-`Z` small and keeps every
/// other character, so for ASCII keys the match is equality up to ASCII
/// case.
#[verifier::external_body]
pub fn headers_get(h: &Headers<'static>, key: &str) -> (res: Option<HeaderContent>)
    ensures
        match res {
            None => header_lookup(*h, key@) is None,
            Some(v) => header_lookup(*h, key@) == Some(v@),
        },
        res is None <==> forall|i: int|
            0 <= i < header_entries(*h).len() ==> !keys_match(#[trigger] header_entries(*h)[i].0, key@),
        ascii_keys(header_entries(*h)) && ascii_text(key@) ==> match res {
            None => ascii_lookup(header_entries(*h), key@) is None,
            Some(v) => ascii_lookup(header_entries(*h), key@) == Some(v@),
        },
{
    match h.get(key.to_owned()) {
        None => None,
        Some(HeaderValue::StrRef(s)) => Some(HeaderContent::Text(s.to_string())),
        Some(HeaderValue::Str(s)) => Some(HeaderContent::Text(s.clone())),
        Some(HeaderValue::NumberUsize(n)) => Some(HeaderContent::Number(*n)),
    }
}

/// Sets the header `key` to `value`.
///
/// Trusted: `Headers::set` removes the first entry whose key matches and
/// then appends the new entry at the end; the key is stored as an owned
/// copy of `key`. A key matches itself, as both sides are case-folded the
/// same way.
#[verifier::external_body]
pub fn headers_set(h: &mut Headers<'static>, key: &str, value: HeaderInput)
    ensures
        header_entries(*final(h)) == entries_after_set(header_entries(*old(h)), key@, value@),
        keys_match(header_entries(*final(h)).last().0, key@),
{
    let owned_key = key.to_string();
    match value {
        HeaderInput::Static(s) => h.set(owned_key, s),
        HeaderInput::Owned(s) => h.set(owned_key, s),
        HeaderInput::Number(n) => h.set(owned_key, n),
    }
}

/// Adds the header `key` with `value` at the end, whether or not the
/// collection has one with that key already.
///
/// Trusted: `Headers::append` pushes the new entry without looking at the
/// others; the key is stored as an owned copy of `key`. A key matches
/// itself, as both sides are case-folded the same way.
#[verifier::external_body]
pub fn headers_append(h: &mut Headers<'static>, key: &str, value: HeaderInput)
    ensures
        header_entries(*final(h)) == header_entries(*old(h)).push((key@, value@)),
        keys_match(header_entries(*final(h)).last().0, key@),
{
    let owned_key = key.to_string();
    match value {
        HeaderInput::Static(s) => h.append(owned_key, s),
        HeaderInput::Owned(s) => h.append(owned_key, s),
        HeaderInput::Number(n) => h.append(owned_key, n),
    }
}

/// A single HTTP request.
pub struct Request {
    /// The protocol, such as `HTTP/1.1`.
    pub protocol: String,
    /// The method.
    pub method: Method,
    /// The path.
    pub path: String,
    /// The headers.
    pub headers: Headers<'static>,
    /// The body.
    pub body: Vec<u8>,
}

/// A request as the rules see it: the headers by their entries.
pub struct SpecRequest {
    pub protocol: Seq<char>,
    pub path: Seq<char>,
    pub headers: Seq<(Seq<char>, HeaderVal)>,
    pub body: Seq<u8>,
}

impl View for Request {
    type V = SpecRequest;

    open spec fn view(&self) -> SpecRequest {
        SpecRequest {
            protocol: self.protocol@,
            path: self.path@,
            headers: header_entries(self.headers),
            body: self.body@,
        }
    }
}

impl Request {
    /// Creates a new request from its parts.
    pub fn new(protocol: &str, method: Method, path: &str, headers: Headers<'static>, body: &[u8]) -> (res: Request)
        ensures
            res.protocol@ == protocol@,
            res.method == method,
            res.path@ == path@,
            res.headers == headers,
            res.body@ == body@,
    {
        Request { protocol: protocol.to_owned(), method, path: path.to_owned(), headers, body: vstd::slice::slice_to_vec(body) }
    }

    /// Returns the path.
    pub fn path(&self) -> (res: &str)
        ensures
            res@ == self.path@,
    {
        self.path.as_str()
    }

    /// Returns the protocol.
    pub fn protocol(&self) -> (res: &str)
        ensures
            res@ == self.protocol@,
    {
        self.protocol.as_str()
    }

    /// Returns the headers.
    pub fn headers(&self) -> (res: &Headers<'static>)
        ensures
            *res == self.headers,
    {
        &self.headers
    }

    /// Returns the body.
    pub fn body(&self) -> (res: &[u8])
        ensures
            res@ == self.body@,
    {
        self.body.as_slice()
    }

    /// Replaces the body.
    pub fn set_body(&mut self, body: Vec<u8>)
        ensures
            final(self).body == body,
            final(self).protocol == old(self).protocol,
            final(self).method == old(self).method,
            final(self).path == old(self).path,
            final(self).headers == old(self).headers,
    {
        self.body = body;
    }

    /// Replaces the path.
    pub fn set_path(&mut self, path: &str)
        ensures
            final(self).path@ == path@,
            final(self).protocol == old(self).protocol,
            final(self).method == old(self).method,
            final(self).headers == old(self).headers,
            final(self).body == old(self).body,
    {
        self.path = path.to_owned();
    }
}

/// A single HTTP response.
pub struct Response {
    /// The protocol, such as `HTTP/1.1`.
    pub protocol: String,
    /// The numeric status code, such as `200` or `401`.
    pub status_code: u16,
    /// The headers.
    pub headers: Headers<'static>,
    /// The body.
    pub body: Vec<u8>,
}

/// A response as the rules see it: the headers by their entries.
pub struct SpecResponse {
    pub protocol: Seq<char>,
    pub status_code: u16,
    pub headers: Seq<(Seq<char>, HeaderVal)>,
    pub body: Seq<u8>,
}

/// `r` with its headers replaced by `headers`.
pub open spec fn with_headers(r: SpecResponse, headers: Seq<(Seq<char>, HeaderVal)>) -> SpecResponse {
    SpecResponse { headers: headers, ..r }
}

/// `r` with the body `body` and the `Content-Length` header set to its
/// length.
pub open spec fn body_replaced(r: SpecResponse, body: Seq<u8>) -> SpecResponse {
    SpecResponse {
        body: body,
        headers: entries_after_set(r.headers, "Content-Length"@, HeaderVal::Number(body.len() as usize)),
        ..r
    }
}

impl View for Response {
    type V = SpecResponse;

    open spec fn view(&self) -> SpecResponse {
        SpecResponse {
            protocol: self.protocol@,
            status_code: self.status_code,
            headers: header_entries(self.headers),
            body: self.body@,
        }
    }
}

impl Response {
    /// Creates a new response from its parts.
    pub fn new(protocol: &str, status_code: u16, headers: Headers<'static>, body: Vec<u8>) -> (res: Response)
        ensures
            res.protocol@ == protocol@,
            res.status_code == status_code,
            res.headers == headers,
            res.body == body,
    {
        Response { protocol: protocol.to_owned(), status_code, headers, body }
    }

    /// Returns the headers.
    pub fn headers(&self) -> (res: &Headers<'static>)
        ensures
            *res == self.headers,
    {
        &self.headers
    }

    /// Returns the body.
    pub fn body(&self) -> (res: &[u8])
        ensures
            res@ == self.body@,
    {
        self.body.as_slice()
    }

    /// Replaces the body and sets the `Content-Length` header to its
    /// length.
    pub fn set_body(&mut self, body: Vec<u8>)
        ensures
            final(self)@ == body_replaced(old(self)@, body@),
    {
        self.body = body;
        let n = self.body.len();
        headers_set(&mut self.headers, "Content-Length", HeaderInput::Number(n));
    }

    /// Sets the header `key` to `value`, replacing an earlier one.
    pub fn add_header(&mut self, key: &str, value: HeaderInput)
        ensures
            final(self)@ == with_headers(old(self)@, entries_after_set(old(self)@.headers, key@, value@)),
    {
        headers_set(&mut self.headers, key, value);
    }
}

/// What `stream_httparse`'s request parser makes of `data` fed to it in one
/// piece: the request, or `None` where `finish` reports an error.
pub uninterp spec fn parsed_request(data: Seq<u8>) -> Option<SpecRequest>;

/// Parses a request out of the bytes received.
///
/// Trusted: feeds `data` to a fresh `ReqParser` with `block_parse` and calls
/// `finish`, whose result depends on `data` alone; the request is copied
/// into the library's type. The parser unwraps the number of a
/// `Content-Length` header and reads the head's text without checking that
/// it is UTF-8, so `data` must begin with a head of the shape
/// `request_head_ok` describes: ASCII, with decimal `Content-Length` values
/// no larger than `data`; on such a head the parser reads no byte past the
/// blank line as text.
#[verifier::external_body]
pub fn parse_request(data: &[u8]) -> (res: Option<Request>)
    requires
        request_head_ok(data@),
    ensures
        match res {
            Some(r) => parsed_request(data@) == Some(r@),
            None => parsed_request(data@) is None,
        },
{
    let mut parser = ReqParser::new_capacity(data.len());
    parser.block_parse(data);
    match parser.finish() {
        Ok(req) => Some(Request {
            protocol: req.protocol().to_owned(),
            method: req.method().clone(),
            path: req.path().to_owned(),
            headers: req.headers().to_owned(),
            body: req.body().to_vec(),
        }),
        Err(_) => None,
    }
}

/// Whether `stream_httparse`'s response parser, fed `data` in one piece,
/// reports that it has received a whole response.
pub uninterp spec fn response_complete(data: Seq<u8>) -> bool;

/// What `stream_httparse`'s response parser makes of `data` fed to it in
/// one piece: the response, or `None` where `finish_owned` reports an error.
pub uninterp spec fn parsed_response(data: Seq<u8>) -> Option<SpecResponse>;

/// Parses a response out of bytes: whether the parser saw a whole
/// response, and the response it makes of them.
///
/// Trusted: feeds `data` to a fresh `RespParser` with `block_parse`, whose
/// first result tells whether the response is complete, and calls
/// `finish_owned`; both depend on `data` alone. The status is copied as its
/// number. The parser unwraps the number of a `Content-Length` header and
/// reads the head's text without checking that it is UTF-8, so `data` must
/// begin with a head of the shape `response_head_ok` describes: ASCII, with
/// decimal `Content-Length` values no larger than `data`.
#[verifier::external_body]
pub(crate) fn parse_response(data: &[u8]) -> (res: (bool, Option<Response>))
    requires
        response_head_ok(data@),
    ensures
        res.0 == response_complete(data@),
        match res.1 {
            Some(r) => parsed_response(data@) == Some(r@),
            None => parsed_response(data@) is None,
        },
{
    let mut parser = RespParser::new_capacity(data.len());
    let (done, _) = parser.block_parse(data);
    match parser.finish_owned() {
        Ok(resp) => (done, Some(Response {
            protocol: resp.protocol().to_owned(),
            status_code: resp.status_code().wasm_serialize() as u16,
            headers: resp.headers().to_owned(),
            body: resp.body().to_vec(),
        })),
        Err(_) => (done, None),
    }
}

/// The answer when handling a request failed: status 500 with no headers
/// and an empty body.
pub fn internal_error_response() -> (res: Response)
    ensures
        res@.protocol == "HTTP/1.1"@,
        res@.status_code == 500,
        res@.headers.len() == 0,
        res@.body.len() == 0,
{
    Response::new("HTTP/1.1", 500, headers_new(), Vec::new())
}

} // verus!
