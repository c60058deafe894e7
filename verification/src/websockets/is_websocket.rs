//! Recognizing requests that ask for a WebSocket connection.
use vstd::prelude::*;

use crate::http::{content_text, header_lookup, headers_get, value_text, Request};
use crate::text::{str_eq, to_lowercase, unicode_lowercase};

verus! {

/// Whether the request asks to be upgraded to a WebSocket connection: its
/// `Upgrade` header is `websocket` in any case.
pub open spec fn wants_websocket(req: Request) -> bool {
    match header_lookup(req.headers, "Upgrade"@) {
        Some(v) => unicode_lowercase(value_text(v)) == "websocket"@,
        None => false,
    }
}

/// Checks whether the request asks for a WebSocket connection.
pub fn is_websocket(req: &Request) -> (res: bool)
    ensures
        res == wants_websocket(*req),
{
    match headers_get(&req.headers, "Upgrade") {
        Some(val) => {
            let text = content_text(&val);
            let lower = to_lowercase(text.as_str());
            str_eq(lower.as_str(), "websocket")
        },
        None => false,
    }
}

} // verus!
