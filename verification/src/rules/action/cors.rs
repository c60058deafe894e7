//! Answering CORS requests: the `Access-Control-*` response headers.
use vstd::prelude::*;
use vstd::string::StringExecFns;

use crate::http::{
    content_text, entries_after_set, header_lookup, headers_get, value_text, with_headers,
    HeaderInput, HeaderVal, Request, Response,
};
use crate::rules::action::{CorsOpts, SpecCorsOpts};
use crate::text::str_eq;

verus! {

/// The texts in `v`, joined with `", "` between each two of them.
pub open spec fn join_list(v: Seq<Seq<char>>) -> Seq<char>
    decreases v.len(),
{
    if v.len() == 0 {
        Seq::empty()
    } else if v.len() == 1 {
        v[0]
    } else {
        join_list(v.drop_last()) + ", "@ + v.last()
    }
}

/// The characters of each string in `v`.
pub open spec fn texts(v: Seq<String>) -> Seq<Seq<char>> {
    v.map_values(|s: String| s@)
}

/// Sets the header `key` to the text `value` when `cond` holds.
pub open spec fn set_if(
    cond: bool,
    entries: Seq<(Seq<char>, HeaderVal)>,
    key: Seq<char>,
    value: HeaderVal,
) -> Seq<(Seq<char>, HeaderVal)> {
    if cond {
        entries_after_set(entries, key, value)
    } else {
        entries
    }
}

/// The response headers after answering a request whose `Origin` header is
/// `origin`: nothing changes unless the origin is one of the allowed ones;
/// then the allowed origin, the maximum age, the credentials flag, the
/// methods and the headers are set, each where the options ask for it.
pub open spec fn cors_entries(
    origin: Option<HeaderVal>,
    opts: SpecCorsOpts,
    entries: Seq<(Seq<char>, HeaderVal)>,
) -> Seq<(Seq<char>, HeaderVal)> {
    match origin {
        None => entries,
        Some(v) => {
            let o = value_text(v);
            if !opts.origins.contains(o) {
                entries
            } else {
                let e1 = entries_after_set(entries, "Access-Control-Allow-Origin"@, HeaderVal::Text(o));
                let e2 = match opts.max_age {
                    Some(m) => entries_after_set(e1, "Access-Control-Max-Age"@, HeaderVal::Number(m)),
                    None => e1,
                };
                let e3 = set_if(
                    opts.credentials,
                    e2,
                    "Access-Control-Allow-Credentials"@,
                    HeaderVal::Text("true"@),
                );
                let e4 = set_if(
                    opts.methods.len() > 0,
                    e3,
                    "Access-Control-Allow-Methods"@,
                    HeaderVal::Text(join_list(opts.methods)),
                );
                set_if(
                    opts.headers.len() > 0,
                    e4,
                    "Access-Control-Allow-Headers"@,
                    HeaderVal::Text(join_list(opts.headers)),
                )
            }
        },
    }
}

/// Whether `origin` is one of the `valid` origins.
fn valid_origin(origin: &str, valid: &Vec<String>) -> (res: bool)
    ensures
        res == texts(valid@).contains(origin@),
{
    let mut i: usize = 0;
    while i < valid.len()
        invariant
            0 <= i <= valid@.len(),
            forall|j: int| 0 <= j < i ==> valid@[j]@ != origin@,
        decreases valid@.len() - i,
    {
        if str_eq(valid[i].as_str(), origin) {
            assert(texts(valid@)[i as int] == origin@);
            return true;
        }
        i = i + 1;
    }
    proof {
        if texts(valid@).contains(origin@) {
            let j = choose|j: int| 0 <= j < texts(valid@).len() && texts(valid@)[j] == origin@;
            assert(valid@[j]@ == origin@);
        }
    }
    false
}

/// Joins the texts in `v` with `", "` between each two of them.
fn join_with_comma(v: &Vec<String>) -> (res: String)
    ensures
        res@ == join_list(texts(v@)),
{
    let mut out = String::new();
    let mut i: usize = 0;
    while i < v.len()
        invariant
            0 <= i <= v@.len(),
            out@ == join_list(texts(v@).take(i as int)),
        decreases v@.len() - i,
    {
        proof {
            let t = texts(v@).take(i as int + 1);
            assert(t.drop_last() =~= texts(v@).take(i as int));
            assert(t.last() == v@[i as int]@);
        }
        if i > 0 {
            out.append(", ");
        }
        out.append(v[i].as_str());
        i = i + 1;
    }
    assert(texts(v@).take(v@.len() as int) =~= texts(v@));
    out
}

/// Adds the CORS headers to the response for the request's `Origin`, as
/// the options allow.
pub fn apply_req(req: &Request, resp: &mut Response, opts: &CorsOpts)
    ensures
        final(resp)@ == with_headers(
            old(resp)@,
            cors_entries(header_lookup(req.headers, "Origin"@), opts@, old(resp)@.headers),
        ),
{
    let origin = match headers_get(&req.headers, "Origin") {
        Some(o) => o,
        None => {
            return;
        },
    };
    let origin_value = content_text(&origin);
    if !valid_origin(origin_value.as_str(), &opts.origins) {
        return;
    }
    resp.add_header("Access-Control-Allow-Origin", HeaderInput::Owned(origin_value));
    if let Some(max_age) = opts.max_age {
        resp.add_header("Access-Control-Max-Age", HeaderInput::Number(max_age));
    }
    if opts.credentials {
        resp.add_header("Access-Control-Allow-Credentials", HeaderInput::Static("true"));
    }
    if opts.methods.len() > 0 {
        let methods_value = join_with_comma(&opts.methods);
        resp.add_header("Access-Control-Allow-Methods", HeaderInput::Owned(methods_value));
    }
    if opts.headers.len() > 0 {
        let headers_value = join_with_comma(&opts.headers);
        resp.add_header("Access-Control-Allow-Headers", HeaderInput::Owned(headers_value));
    }
}

/// Whether two option sets agree on everything but the allowed origins.
pub open spec fn same_but_origins(a: SpecCorsOpts, b: SpecCorsOpts) -> bool {
    &&& a.max_age == b.max_age
    &&& a.credentials == b.credentials
    &&& a.methods == b.methods
    &&& a.headers == b.headers
}

/// Only whether the origin is allowed counts, not where it stands in the
/// list of allowed origins: two option sets that differ only in their
/// lists, and both allow the origin or both refuse it, give the same
/// headers.
pub proof fn lemma_cors_origin_position_free(
    origin: HeaderVal,
    a: SpecCorsOpts,
    b: SpecCorsOpts,
    entries: Seq<(Seq<char>, HeaderVal)>,
)
    requires
        same_but_origins(a, b),
        a.origins.contains(value_text(origin)) == b.origins.contains(value_text(origin)),
    ensures
        cors_entries(Some(origin), a, entries) == cors_entries(Some(origin), b, entries),
{
}

/// An origin at any position of the allowed list is answered: on a
/// response without headers at least one header is added, and when no
/// other header is asked for, the headers end with
/// `Access-Control-Allow-Origin` naming that origin.
pub proof fn lemma_cors_allowed_origin(
    origin: HeaderVal,
    opts: SpecCorsOpts,
    i: int,
    entries: Seq<(Seq<char>, HeaderVal)>,
)
    requires
        0 <= i < opts.origins.len(),
        opts.origins[i] == value_text(origin),
    ensures
        cors_entries(Some(origin), opts, Seq::empty()).len() >= 1,
        opts.max_age is None && !opts.credentials && opts.methods.len() == 0 && opts.headers.len() == 0
            ==> cors_entries(Some(origin), opts, entries).last() == (
            "Access-Control-Allow-Origin"@,
            HeaderVal::Text(value_text(origin)),
        ),
{
    assert(opts.origins.contains(value_text(origin)));
    let o = value_text(origin);
    let e0 = Seq::<(Seq<char>, HeaderVal)>::empty();
    let e1 = entries_after_set(e0, "Access-Control-Allow-Origin"@, HeaderVal::Text(o));
    assert(e1.len() >= 1);
    let e2 = match opts.max_age {
        Some(m) => entries_after_set(e1, "Access-Control-Max-Age"@, HeaderVal::Number(m)),
        None => e1,
    };
    lemma_set_keeps_nonempty(e1, "Access-Control-Max-Age"@, HeaderVal::Number(0));
    if let Some(m) = opts.max_age {
        lemma_set_keeps_nonempty(e1, "Access-Control-Max-Age"@, HeaderVal::Number(m));
    }
    assert(e2.len() >= 1);
    let e3 = set_if(opts.credentials, e2, "Access-Control-Allow-Credentials"@, HeaderVal::Text("true"@));
    lemma_set_keeps_nonempty(e2, "Access-Control-Allow-Credentials"@, HeaderVal::Text("true"@));
    let e4 = set_if(
        opts.methods.len() > 0,
        e3,
        "Access-Control-Allow-Methods"@,
        HeaderVal::Text(join_list(opts.methods)),
    );
    lemma_set_keeps_nonempty(e3, "Access-Control-Allow-Methods"@, HeaderVal::Text(join_list(opts.methods)));
    lemma_set_keeps_nonempty(e4, "Access-Control-Allow-Headers"@, HeaderVal::Text(join_list(opts.headers)));
    lemma_set_ends_with(entries, "Access-Control-Allow-Origin"@, HeaderVal::Text(o));
}

/// An origin that is not in the allowed list, or a request without
/// `Origin`, leaves the response headers as they are.
pub proof fn lemma_cors_refused(origin: Option<HeaderVal>, opts: SpecCorsOpts, entries: Seq<(Seq<char>, HeaderVal)>)
    requires
        origin matches Some(v) ==> !opts.origins.contains(value_text(v)),
    ensures
        cors_entries(origin, opts, entries) == entries,
{
}

/// Setting a header leaves at least one entry.
proof fn lemma_set_keeps_nonempty(entries: Seq<(Seq<char>, HeaderVal)>, key: Seq<char>, value: HeaderVal)
    ensures
        entries_after_set(entries, key, value).len() >= 1,
{
}

/// Setting a header puts it last.
proof fn lemma_set_ends_with(entries: Seq<(Seq<char>, HeaderVal)>, key: Seq<char>, value: HeaderVal)
    ensures
        entries_after_set(entries, key, value).last() == (key, value),
{
}

} // verus!
