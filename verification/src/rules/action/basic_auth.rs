//! HTTP Basic authentication of requests.
use vstd::prelude::*;
use vstd::utf8::{decode_utf8, valid_utf8};

use crate::encoding::{base64_url_safe_decoded, decode_url_safe, utf8_text};
use crate::http::{
    header_entries, header_lookup, headers_get, headers_new, headers_set, HeaderContent,
    HeaderInput, HeaderVal, Request, Response,
};
use crate::text::{ascii_lower, chars_of, find_from, position_from, str_eq, to_ascii_lowercase};

verus! {

/// The user name and password in the text of an `Authorization` header:
/// the text up to and including its first space must be `Basic ` in any
/// ASCII case; the rest is URL-safe Base64 of UTF-8 text, which holds the
/// user name, a `:` and the password.
pub open spec fn credentials_in(s: Seq<char>) -> Option<(Seq<char>, Seq<char>)> {
    match find_from(s, ' ', 0) {
        None => None,
        Some(sp) => {
            let auth_type = s.take(sp + 1);
            let raw = s.skip(sp + 1);
            if ascii_lower(auth_type) != ascii_lower("Basic "@) {
                None
            } else {
                match base64_url_safe_decoded(raw) {
                    None => None,
                    Some(bytes) => {
                        if !valid_utf8(bytes) {
                            None
                        } else {
                            let text = decode_utf8(bytes);
                            match find_from(text, ':', 0) {
                                None => None,
                                Some(c) => Some((text.take(c), text.skip(c + 1))),
                            }
                        }
                    },
                }
            }
        },
    }
}

/// The credentials of a request whose `Authorization` header is `value`;
/// a header that holds a number carries none.
pub open spec fn basic_credentials(value: Option<HeaderVal>) -> Option<(Seq<char>, Seq<char>)> {
    match value {
        Some(HeaderVal::Text(s)) => credentials_in(s),
        _ => None,
    }
}

/// Whether `r` is the answer to a request that is not authorized: status
/// 401, only a `WWW-Authenticate` header asking for Basic authentication,
/// an empty body and the protocol of the request.
pub open spec fn is_unauthorized_response(r: Response, protocol: Seq<char>) -> bool {
    &&& r.protocol@ == protocol
    &&& r.status_code == 401
    &&& header_entries(r.headers) == seq![
        ("WWW-Authenticate"@, HeaderVal::Text("Basic realm=\"tunneload\""@)),
    ]
    &&& r.body@.len() == 0
}

/// The answer to a request that is not authorized.
pub fn unauthorized_response(protocol: &str) -> (res: Response)
    ensures
        is_unauthorized_response(res, protocol@),
{
    let mut headers = headers_new();
    headers_set(&mut headers, "WWW-Authenticate", HeaderInput::Static("Basic realm=\"tunneload\""));
    proof {
        assert(seq![("WWW-Authenticate"@, HeaderVal::Text("Basic realm=\"tunneload\""@))]
            =~= Seq::<(Seq<char>, HeaderVal)>::empty().push(
            ("WWW-Authenticate"@, HeaderVal::Text("Basic realm=\"tunneload\""@)),
        ));
    }
    Response::new(protocol, 401, headers, Vec::new())
}

/// Reads the user name and password out of the text of an `Authorization`
/// header.
pub fn parse_credentials(auth_str: &str) -> (res: Option<(String, String)>)
    ensures
        match res {
            Some((u, p)) => credentials_in(auth_str@) == Some((u@, p@)),
            None => credentials_in(auth_str@) is None,
        },
{
    let chars = chars_of(auth_str);
    let end_of_basic = match position_from(&chars, ' ', 0) {
        Some(i) => i,
        None => {
            return None;
        },
    };
    assert(end_of_basic < chars.len());
    let auth_type = auth_str.substring_char(0, end_of_basic + 1);
    let raw_auth_content = auth_str.substring_char(end_of_basic + 1, chars.len());
    assert(auth_type@ == auth_str@.take(end_of_basic + 1));
    assert(raw_auth_content@ == auth_str@.skip(end_of_basic + 1));
    let lower_type = to_ascii_lowercase(auth_type);
    let lower_basic = to_ascii_lowercase("Basic ");
    if !str_eq(lower_type.as_str(), lower_basic.as_str()) {
        return None;
    }
    let decoded = match decode_url_safe(raw_auth_content) {
        Ok(c) => c,
        Err(_) => {
            return None;
        },
    };
    let auth_content = match utf8_text(decoded.as_slice()) {
        Some(c) => c,
        None => {
            return None;
        },
    };
    let content_chars = chars_of(auth_content);
    let split_point = match position_from(&content_chars, ':', 0) {
        Some(i) => i,
        None => {
            return None;
        },
    };
    assert(split_point < content_chars.len());
    let username = auth_content.substring_char(0, split_point);
    let password = auth_content.substring_char(split_point + 1, content_chars.len());
    assert(username@ == auth_content@.take(split_point as int));
    assert(password@ == auth_content@.skip(split_point + 1));
    Some((username.to_owned(), password.to_owned()))
}

/// Reads the user name and password out of the request's `Authorization`
/// header.
pub fn credentials(req: &Request) -> (res: Option<(String, String)>)
    ensures
        match res {
            Some((u, p)) => basic_credentials(header_lookup(req.headers, "Authorization"@)) == Some(
                (u@, p@),
            ),
            None => basic_credentials(header_lookup(req.headers, "Authorization"@)) is None,
        },
{
    match headers_get(&req.headers, "Authorization") {
        Some(HeaderContent::Text(value)) => parse_credentials(value.as_str()),
        _ => None,
    }
}

/// Lets the request through (`None`) when its `Authorization` header holds
/// Basic credentials that `check` accepts; otherwise answers it with the
/// response for unauthorized requests.
pub fn apply_req<F: Fn(&str, &str) -> bool>(req: &Request, check: &F) -> (res: Option<Response>)
    requires
        forall|u: &str, p: &str| check.requires((u, p)),
    ensures
        match res {
            Some(r) => is_unauthorized_response(r, req.protocol@),
            None => basic_credentials(header_lookup(req.headers, "Authorization"@)) is Some,
        },
        match basic_credentials(header_lookup(req.headers, "Authorization"@)) {
            None => res is Some,
            Some((u, p)) => exists|a: &str, b: &str, r: bool|
                #![trigger check.ensures((a, b), r)]
                a@ == u && b@ == p && check.ensures((a, b), r) && (res is None <==> r),
        },
{
    match credentials(req) {
        None => Some(unauthorized_response(req.protocol.as_str())),
        Some((username, password)) => {
            let u = username.as_str();
            let p = password.as_str();
            let accepted = check(u, p);
            assert(check.ensures((u, p), accepted));
            if accepted {
                None
            } else {
                Some(unauthorized_response(req.protocol.as_str()))
            }
        },
    }
}

} // verus!
