//! Actions that rewrite requests and responses.
use vstd::prelude::*;
use crate::http::{
    entries_after_set, header_lookup, with_headers, HeaderInput, HeaderVal, Request, Response,
    SpecResponse,
};

pub mod basic_auth;
pub mod compress;
pub mod cors;
pub mod remove_prefix;

verus! {

/// The options that configure CORS.
#[derive(Clone, Debug, PartialEq)]
pub struct CorsOpts {
    /// The origins from which a request is allowed.
    pub origins: Vec<String>,
    /// How long the response to a preflight request may be cached.
    pub max_age: Option<usize>,
    /// Whether credentials may be sent with CORS requests.
    pub credentials: bool,
    /// The methods allowed for CORS.
    pub methods: Vec<String>,
    /// The headers permitted on CORS requests.
    pub headers: Vec<String>,
}

/// `CorsOpts` with each text by its characters.
pub struct SpecCorsOpts {
    pub origins: Seq<Seq<char>>,
    pub max_age: Option<usize>,
    pub credentials: bool,
    pub methods: Seq<Seq<char>>,
    pub headers: Seq<Seq<char>>,
}

impl View for CorsOpts {
    type V = SpecCorsOpts;

    open spec fn view(&self) -> SpecCorsOpts {
        SpecCorsOpts {
            origins: self.origins@.map_values(|s: String| s@),
            max_age: self.max_age,
            credentials: self.credentials,
            methods: self.methods@.map_values(|s: String| s@),
            headers: self.headers@.map_values(|s: String| s@),
        }
    }
}

/// An action performs a specific change on a request or a response.
#[derive(Clone, Debug, PartialEq)]
pub enum Action {
    /// Does nothing; the default action.
    Noop,
    /// Removes the given prefix from the path of the request.
    RemovePrefix(String),
    /// Sets each of the headers on every response.
    AddHeaders(Vec<(String, String)>),
    /// Compresses the response body.
    Compress,
    /// Answers CORS requests.
    Cors(CorsOpts),
}

/// The header pairs of an `AddHeaders` action, each text by its characters.
pub open spec fn header_pairs(v: Seq<(String, String)>) -> Seq<(Seq<char>, Seq<char>)> {
    v.map_values(|p: (String, String)| (p.0@, p.1@))
}

/// The header entries after setting each of the `pairs` in turn.
pub open spec fn entries_after_sets(
    entries: Seq<(Seq<char>, HeaderVal)>,
    pairs: Seq<(Seq<char>, Seq<char>)>,
) -> Seq<(Seq<char>, HeaderVal)>
    decreases pairs.len(),
{
    if pairs.len() == 0 {
        entries
    } else {
        entries_after_set(
            entries_after_sets(entries, pairs.drop_last()),
            pairs.last().0,
            HeaderVal::Text(pairs.last().1),
        )
    }
}

/// Whether the request may be handed to the action: removing a prefix must
/// not cut the path inside a character.
pub open spec fn request_ok(action: Action, path: Seq<char>) -> bool {
    match action {
        Action::RemovePrefix(prefix) => remove_prefix::prefix_cut_ok(path, prefix@),
        _ => true,
    }
}

/// The path of a request after the action: only `RemovePrefix` changes it.
pub open spec fn path_after(action: Action, path: Seq<char>) -> Seq<char> {
    match action {
        Action::RemovePrefix(prefix) => remove_prefix::path_without_prefix(path, prefix@),
        _ => path,
    }
}

/// A response after the action: `AddHeaders` sets its headers, `Compress`
/// compresses, `Cors` adds the CORS headers, and the others leave it as it
/// is.
pub open spec fn response_after(action: Action, req: Request, r: SpecResponse) -> SpecResponse {
    match action {
        Action::AddHeaders(pairs) => with_headers(r, entries_after_sets(r.headers, header_pairs(pairs@))),
        Action::Compress => compress::compressed(req, r),
        Action::Cors(opts) => with_headers(
            r,
            cors::cors_entries(header_lookup(req.headers, "Origin"@), opts@, r.headers),
        ),
        _ => r,
    }
}

/// The path after each of the actions in turn.
pub open spec fn path_after_all(actions: Seq<Action>, path: Seq<char>) -> Seq<char>
    decreases actions.len(),
{
    if actions.len() == 0 {
        path
    } else {
        path_after(actions.last(), path_after_all(actions.drop_last(), path))
    }
}

/// Whether each of the actions in turn may be handed the request.
pub open spec fn requests_ok(actions: Seq<Action>, path: Seq<char>) -> bool
    decreases actions.len(),
{
    if actions.len() == 0 {
        true
    } else {
        requests_ok(actions.drop_last(), path) && request_ok(
            actions.last(),
            path_after_all(actions.drop_last(), path),
        )
    }
}

/// A response after each of the actions in turn.
pub open spec fn response_after_all(actions: Seq<Action>, req: Request, r: SpecResponse) -> SpecResponse
    decreases actions.len(),
{
    if actions.len() == 0 {
        r
    } else {
        response_after(actions.last(), req, response_after_all(actions.drop_last(), req, r))
    }
}

/// Sets each of the header pairs on the response, in order.
fn add_headers(resp: &mut Response, headers: &Vec<(String, String)>)
    ensures
        final(resp)@ == with_headers(old(resp)@, entries_after_sets(old(resp)@.headers, header_pairs(headers@))),
{
    let mut i: usize = 0;
    while i < headers.len()
        invariant
            0 <= i <= headers@.len(),
            resp@ == with_headers(
                old(resp)@,
                entries_after_sets(old(resp)@.headers, header_pairs(headers@).take(i as int)),
            ),
        decreases headers@.len() - i,
    {
        let (key, value) = &headers[i];
        proof {
            let t = header_pairs(headers@).take(i + 1);
            assert(t.drop_last() =~= header_pairs(headers@).take(i as int));
            assert(t.last() == (key@, value@));
        }
        resp.add_header(key.as_str(), HeaderInput::Owned(value.clone()));
        i = i + 1;
    }
    assert(header_pairs(headers@).take(headers@.len() as int) =~= header_pairs(headers@));
}

impl Action {
    /// Applies the action to the request. None of these actions refuses a
    /// request, so the result is always `Ok`.
    pub fn apply_req(&self, req: &mut Request) -> (res: Result<(), Response>)
        requires
            request_ok(*self, old(req).path@),
        ensures
            res is Ok,
            final(req).path@ == path_after(*self, old(req).path@),
            final(req).protocol == old(req).protocol,
            final(req).method == old(req).method,
            final(req).headers == old(req).headers,
            final(req).body == old(req).body,
    {
        match self {
            Action::RemovePrefix(prefix) => {
                remove_prefix::apply_req(req, prefix.as_str());
                Ok(())
            },
            _ => Ok(()),
        }
    }

    /// Applies the action to the response of `req`.
    pub fn apply_resp(&self, req: &Request, resp: &mut Response)
        ensures
            final(resp)@ == response_after(*self, *req, old(resp)@),
    {
        match self {
            Action::AddHeaders(headers) => add_headers(resp, headers),
            Action::Compress => compress::apply_req(req, resp),
            Action::Cors(opts) => cors::apply_req(req, resp, opts),
            _ => {},
        }
    }
}

} // verus!
