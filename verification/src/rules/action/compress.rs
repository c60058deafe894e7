//! Compressing response bodies with gzip when the client accepts it.
use vstd::prelude::*;

use crate::encoding::{gzip_compress_fast, gzip_fast};
use crate::http::{
    entries_after_set, entries_lookup, header_lookup, headers_get, HeaderContent, HeaderInput,
    HeaderVal, Request, Response, SpecResponse,
};
use crate::text::chars_of;

verus! {

/// Whether the token `gzip` stands at position `j` of the `", "`-separated
/// list `s`: the start of `s` or a separator before it, and the end of `s`
/// or a separator after it.
pub open spec fn gzip_token_at(s: Seq<char>, j: int) -> bool {
    &&& 0 <= j && j + 4 <= s.len()
    &&& s.subrange(j, j + 4) == "gzip"@
    &&& (j == 0 || (j >= 2 && s[j - 2] == ',' && s[j - 1] == ' '))
    &&& (j + 4 == s.len() || (j + 6 <= s.len() && s[j + 4] == ',' && s[j + 5] == ' '))
}

/// Whether `gzip` is one of the tokens of the `", "`-separated list `s`,
/// as `str::split(", ")` yields them.
pub open spec fn accepts_gzip(s: Seq<char>) -> bool {
    exists|j: int| gzip_token_at(s, j)
}

/// Whether a response is compressed: it has neither a `Content-Encoding`
/// nor a `Transfer-Encoding` header, and the request's `Accept-Encoding`
/// header is a text that lists `gzip`.
pub open spec fn compresses(
    req_accept: Option<HeaderVal>,
    resp_content_encoding: Option<HeaderVal>,
    resp_transfer_encoding: Option<HeaderVal>,
) -> bool {
    &&& resp_content_encoding is None
    &&& resp_transfer_encoding is None
    &&& match req_accept {
        Some(HeaderVal::Text(t)) => accepts_gzip(t),
        _ => false,
    }
}

/// Whether `c` holds `gzip` as a token starting at position `j`.
fn token_at(c: &Vec<char>, j: usize) -> (res: bool)
    requires
        j + 4 <= c@.len(),
    ensures
        res == gzip_token_at(c@, j as int),
{
    proof {
        reveal_strlit("gzip");
    }
    let n = c.len();
    assert(j + 4 <= n);
    let word = c[j] == 'g' && c[j + 1] == 'z' && c[j + 2] == 'i' && c[j + 3] == 'p';
    if word {
        assert(c@.subrange(j as int, j + 4) =~= "gzip"@);
    } else {
        assert(c@.subrange(j as int, j + 4) != "gzip"@) by {
            if c@.subrange(j as int, j + 4) == "gzip"@ {
                assert(c@.subrange(j as int, j + 4)[0] == 'g');
                assert(c@.subrange(j as int, j + 4)[1] == 'z');
                assert(c@.subrange(j as int, j + 4)[2] == 'i');
                assert(c@.subrange(j as int, j + 4)[3] == 'p');
            }
        }
    }
    let before = j == 0 || (j >= 2 && c[j - 2] == ',' && c[j - 1] == ' ');
    let after = j + 4 == n || (n - j >= 6 && c[j + 4] == ',' && c[j + 5] == ' ');
    word && before && after
}

/// Whether the `", "`-separated list `tokens` holds `gzip`.
pub fn is_compression_enabled(tokens: &str) -> (res: bool)
    ensures
        res == accepts_gzip(tokens@),
{
    let c = chars_of(tokens);
    if c.len() < 4 {
        return false;
    }
    let last = c.len() - 4;
    let mut j: usize = 0;
    while j <= last
        invariant
            c@ == tokens@,
            c@.len() >= 4,
            last == c@.len() - 4,
            last + 4 <= usize::MAX,
            0 <= j <= last + 1,
            forall|k: int| 0 <= k < j ==> !gzip_token_at(tokens@, k),
        decreases c@.len() - j,
    {
        if token_at(&c, j) {
            return true;
        }
        j = j + 1;
    }
    false
}

/// A response after compressing: when `compresses` holds, the body is
/// gzip-compressed and `content-encoding` and `content-length` are set;
/// otherwise the response stays as it is.
pub open spec fn compressed(req: Request, r: SpecResponse) -> SpecResponse {
    if compresses(
        header_lookup(req.headers, "Accept-Encoding"@),
        entries_lookup(r.headers, "Content-Encoding"@),
        entries_lookup(r.headers, "Transfer-Encoding"@),
    ) {
        let n_body = gzip_fast(r.body);
        SpecResponse {
            body: n_body,
            headers: entries_after_set(
                entries_after_set(r.headers, "content-encoding"@, HeaderVal::Text("gzip"@)),
                "content-length"@,
                HeaderVal::Number(n_body.len() as usize),
            ),
            ..r
        }
    } else {
        r
    }
}

/// Compresses the response body with gzip when the request accepts it and
/// the response is not encoded yet, and then sets `content-encoding` and
/// `content-length`.
pub fn apply_req(req: &Request, resp: &mut Response)
    ensures
        final(resp)@ == compressed(*req, old(resp)@),
{
    if headers_get(&resp.headers, "Content-Encoding").is_some() {
        return;
    }
    if headers_get(&resp.headers, "Transfer-Encoding").is_some() {
        return;
    }
    match headers_get(&req.headers, "Accept-Encoding") {
        Some(HeaderContent::Text(value)) => {
            if !is_compression_enabled(value.as_str()) {
                return;
            }
        },
        _ => {
            return;
        },
    }
    let n_body = gzip_compress_fast(resp.body.as_slice());
    let body_length = n_body.len();
    resp.body = n_body;
    resp.add_header("content-encoding", HeaderInput::Static("gzip"));
    resp.add_header("content-length", HeaderInput::Number(body_length));
}

/// A client that lists `gzip` anywhere among the `", "`-separated tokens
/// of its `Accept-Encoding` gets a compressed answer when the response has
/// no `Content-Encoding` or `Transfer-Encoding`: `before` is whatever tokens
/// come first (none, or ending in `", "`) and `after` whatever come next
/// (none, or starting with `", "`).
pub proof fn lemma_gzip_anywhere_compresses(before: Seq<char>, after: Seq<char>)
    requires
        before.len() == 0 || (before.len() >= 2 && before[before.len() - 2] == ',' && before.last() == ' '),
        after.len() == 0 || (after.len() >= 2 && after[0] == ',' && after[1] == ' '),
    ensures
        compresses(Some(HeaderVal::Text(before + "gzip"@ + after)), None, None),
{
    reveal_strlit("gzip");
    let t = before + "gzip"@ + after;
    let j = before.len() as int;
    assert(t.subrange(j, j + 4) =~= "gzip"@);
    if before.len() > 0 {
        assert(t[j - 2] == before[before.len() - 2]);
        assert(t[j - 1] == before.last());
    }
    if after.len() > 0 {
        assert(t[j + 4] == after[0]);
        assert(t[j + 5] == after[1]);
    }
    assert(gzip_token_at(t, j));
}

/// A client whose `Accept-Encoding` ends in the token `gzip`, after any
/// other tokens, gets a compressed answer when the response has no
/// `Content-Encoding` or `Transfer-Encoding`.
pub proof fn lemma_gzip_last_compresses(others: Seq<char>)
    ensures
        compresses(Some(HeaderVal::Text(others + ", gzip"@)), None, None),
{
    reveal_strlit(", gzip");
    reveal_strlit("gzip");
    let before = others + ", "@;
    reveal_strlit(", ");
    assert(others + ", gzip"@ =~= before + "gzip"@ + Seq::<char>::empty());
    lemma_gzip_anywhere_compresses(before, Seq::empty());
}

/// A response that already has a `Content-Encoding` or a
/// `Transfer-Encoding` is never compressed again, whatever the client
/// accepts.
pub proof fn lemma_encoded_not_compressed(accept: Option<HeaderVal>, ce: Option<HeaderVal>, te: Option<HeaderVal>)
    requires
        ce is Some || te is Some,
    ensures
        !compresses(accept, ce, te),
{
}

} // verus!
