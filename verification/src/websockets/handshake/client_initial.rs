//! Reads the client's opening handshake request (RFC 6455, 4.2.1).
use vstd::prelude::*;

use crate::encoding::{base64_standard_decoded, decode_standard};
use crate::http::{
    content_text, header_lookup, headers_get, value_text, HeaderContent, HeaderVal, Request,
};
use crate::text::{
    ascii_lower, comma_list, decimal, parse_u8, parse_u8_spec, split_commas_trimmed, str_eq,
    to_ascii_lowercase, usize_to_string,
};

verus! {

/// The Websocket related Information parsed out from
/// the initial Handshake Request by the Client.
#[derive(Debug, PartialEq)]
pub struct InitialRequest {
    /// The requested resource (the request's path).
    pub ressource_name: String,
    /// The client's `Sec-WebSocket-Key`.
    pub key: String,
    /// The client's `Sec-WebSocket-Version`.
    pub version: u8,
    /// The `Origin` header, if any.
    pub origin: Option<String>,
    /// The requested sub-protocols.
    pub protocol: Vec<String>,
    /// The requested extensions.
    pub extensions: Vec<String>,
}

/// The model of an [`InitialRequest`].
pub struct SpecInitialRequest {
    pub ressource_name: Seq<char>,
    pub key: Seq<char>,
    pub version: u8,
    pub origin: Option<Seq<char>>,
    pub protocol: Seq<Seq<char>>,
    pub extensions: Seq<Seq<char>>,
}

impl View for InitialRequest {
    type V = SpecInitialRequest;

    open spec fn view(&self) -> SpecInitialRequest {
        SpecInitialRequest {
            ressource_name: self.ressource_name@,
            key: self.key@,
            version: self.version,
            origin: match self.origin {
                Some(o) => Some(o@),
                None => None,
            },
            protocol: self.protocol@.map_values(|p: String| p@),
            extensions: self.extensions@.map_values(|p: String| p@),
        }
    }
}

/// The possible Errors returned while trying to parse
/// the initial Handshake Request by the Client.
#[derive(Debug, PartialEq)]
pub enum InitialRequestError {
    /// There was no Host-Header present
    MissingHost,
    /// There was no Upgrade-Header present
    MissingUpgrade,
    /// The Value inside the Upgrade-Header was invalid
    InvalidUpgrade(String),
    /// There was no Connection-Header present
    MissingConnection,
    /// The Value inside the Connection-Header was invalid
    InvalidConnection(String),
    /// There was no Key-Header present
    MissingKey,
    /// The Value inside the Key-Header was invalid
    InvalidKey(String),
    /// There was no Version-Header present
    MissingVersion,
    /// The Value inside the Version-Header was invalid
    InvalidVersion(String),
}

/// The model of an [`InitialRequestError`].
pub enum SpecInitialError {
    MissingHost,
    MissingUpgrade,
    InvalidUpgrade(Seq<char>),
    MissingConnection,
    InvalidConnection(Seq<char>),
    MissingKey,
    InvalidKey(Seq<char>),
    MissingVersion,
    InvalidVersion(Seq<char>),
}

impl View for InitialRequestError {
    type V = SpecInitialError;

    open spec fn view(&self) -> SpecInitialError {
        match self {
            InitialRequestError::MissingHost => SpecInitialError::MissingHost,
            InitialRequestError::MissingUpgrade => SpecInitialError::MissingUpgrade,
            InitialRequestError::InvalidUpgrade(s) => SpecInitialError::InvalidUpgrade(s@),
            InitialRequestError::MissingConnection => SpecInitialError::MissingConnection,
            InitialRequestError::InvalidConnection(s) => SpecInitialError::InvalidConnection(s@),
            InitialRequestError::MissingKey => SpecInitialError::MissingKey,
            InitialRequestError::InvalidKey(s) => SpecInitialError::InvalidKey(s@),
            InitialRequestError::MissingVersion => SpecInitialError::MissingVersion,
            InitialRequestError::InvalidVersion(s) => SpecInitialError::InvalidVersion(s@),
        }
    }
}

/// The list in an optional comma separated header.
pub open spec fn header_list(v: Option<HeaderVal>) -> Seq<Seq<char>> {
    match v {
        Some(p) => comma_list(value_text(p)),
        None => Seq::empty(),
    }
}

/// The handshake data once the key has been accepted.
pub open spec fn parse_version_on(path: Seq<char>, h: stream_httparse::Headers<'static>, key: Seq<char>) -> Result<SpecInitialRequest, SpecInitialError> {
    match header_lookup(h, "Sec-WebSocket-Version"@) {
        None => Err(SpecInitialError::MissingVersion),
        Some(v) => match parse_u8_spec(value_text(v)) {
            None => Err(SpecInitialError::InvalidVersion(value_text(v))),
            Some(version) => Ok(
                SpecInitialRequest {
                    ressource_name: path,
                    key,
                    version,
                    origin: match header_lookup(h, "Origin"@) {
                        Some(o) => Some(value_text(o)),
                        None => None,
                    },
                    protocol: header_list(header_lookup(h, "Sec-WebSocket-Protocol"@)),
                    extensions: header_list(header_lookup(h, "Sec-WebSocket-Extensions"@)),
                },
            ),
        },
    }
}

/// The handshake data once `Upgrade` and `Connection` have been accepted:
/// the key must be text that decodes from standard Base64 to 16 bytes.
pub open spec fn parse_key_on(path: Seq<char>, h: stream_httparse::Headers<'static>) -> Result<SpecInitialRequest, SpecInitialError> {
    match header_lookup(h, "Sec-WebSocket-Key"@) {
        None => Err(SpecInitialError::MissingKey),
        Some(HeaderVal::Number(n)) => Err(SpecInitialError::InvalidKey(decimal(n as nat))),
        Some(HeaderVal::Text(k)) => match base64_standard_decoded(k) {
            None => Err(SpecInitialError::InvalidKey(k)),
            Some(bytes) => if bytes.len() != 16 {
                Err(SpecInitialError::InvalidKey(k))
            } else {
                parse_version_on(path, h, k)
            },
        },
    }
}

/// What parsing the opening handshake of a request with the given path and
/// headers yields: the headers `Host`, `Upgrade` (`websocket`, ignoring ASCII
/// case), `Connection` (`upgrade`, ignoring ASCII case), `Sec-WebSocket-Key`
/// and `Sec-WebSocket-Version` (a `u8`) are checked in this order.
pub open spec fn spec_parse_initial(path: Seq<char>, h: stream_httparse::Headers<'static>) -> Result<SpecInitialRequest, SpecInitialError> {
    if header_lookup(h, "Host"@) is None {
        Err(SpecInitialError::MissingHost)
    } else {
        match header_lookup(h, "Upgrade"@) {
            None => Err(SpecInitialError::MissingUpgrade),
            Some(u) => if ascii_lower(value_text(u)) != "websocket"@ {
                Err(SpecInitialError::InvalidUpgrade(value_text(u)))
            } else {
                match header_lookup(h, "Connection"@) {
                    None => Err(SpecInitialError::MissingConnection),
                    Some(c) => if ascii_lower(value_text(c)) != "upgrade"@ {
                        Err(SpecInitialError::InvalidConnection(value_text(c)))
                    } else {
                        parse_key_on(path, h)
                    },
                }
            },
        }
    }
}

/// Reads the comma separated list in the header `key`.
fn header_items(req: &Request, key: &str) -> (res: Vec<String>)
    ensures
        res@.map_values(|p: String| p@) == header_list(header_lookup(req.headers, key@)),
{
    match headers_get(&req.headers, key) {
        Some(raw) => {
            let text = content_text(&raw);
            split_commas_trimmed(text.as_str())
        },
        None => {
            let v: Vec<String> = Vec::new();
            assert(v@.map_values(|p: String| p@) =~= Seq::<Seq<char>>::empty());
            v
        },
    }
}

/// Attempts to parse the given Request as the initial
/// Handshake Request by the Client.
pub fn parse(req: &Request) -> (res: Result<InitialRequest, InitialRequestError>)
    ensures
        match res {
            Ok(r) => spec_parse_initial(req.path@, req.headers) == Ok::<
                SpecInitialRequest,
                SpecInitialError,
            >(r@),
            Err(e) => spec_parse_initial(req.path@, req.headers) == Err::<
                SpecInitialRequest,
                SpecInitialError,
            >(e@),
        },
{
    if headers_get(&req.headers, "Host").is_none() {
        return Err(InitialRequestError::MissingHost);
    }
    match headers_get(&req.headers, "Upgrade") {
        Some(val) => {
            let text = content_text(&val);
            let lower = to_ascii_lowercase(text.as_str());
            if !str_eq(lower.as_str(), "websocket") {
                return Err(InitialRequestError::InvalidUpgrade(text));
            }
        },
        None => return Err(InitialRequestError::MissingUpgrade),
    }
    match headers_get(&req.headers, "Connection") {
        Some(val) => {
            let text = content_text(&val);
            let lower = to_ascii_lowercase(text.as_str());
            if !str_eq(lower.as_str(), "upgrade") {
                return Err(InitialRequestError::InvalidConnection(text));
            }
        },
        None => return Err(InitialRequestError::MissingConnection),
    }
    let key = match headers_get(&req.headers, "Sec-WebSocket-Key") {
        Some(HeaderContent::Text(raw_str)) => {
            let val = match decode_standard(raw_str.as_str()) {
                Ok(v) => v,
                Err(_) => return Err(InitialRequestError::InvalidKey(raw_str)),
            };
            if val.len() != 16 {
                return Err(InitialRequestError::InvalidKey(raw_str));
            }
            raw_str
        },
        Some(HeaderContent::Number(n)) => {
            return Err(InitialRequestError::InvalidKey(usize_to_string(n)));
        },
        None => return Err(InitialRequestError::MissingKey),
    };
    let version = match headers_get(&req.headers, "Sec-WebSocket-Version") {
        Some(raw_version) => {
            let text = content_text(&raw_version);
            match parse_u8(text.as_str()) {
                Some(v) => v,
                None => return Err(InitialRequestError::InvalidVersion(text)),
            }
        },
        None => return Err(InitialRequestError::MissingVersion),
    };
    let origin = match headers_get(&req.headers, "Origin") {
        Some(o) => Some(content_text(&o)),
        None => None,
    };
    let protocol = header_items(req, "Sec-WebSocket-Protocol");
    let extensions = header_items(req, "Sec-WebSocket-Extensions");
    Ok(
        InitialRequest {
            ressource_name: req.path.clone(),
            key,
            version,
            origin,
            protocol,
            extensions,
        },
    )
}

/// The `Connection` header is accepted in any ASCII case of `upgrade`
/// (`Upgrade`, `UPGRADE`, ...): a request whose `Connection` value is
/// `upgrade` up to ASCII case is never refused for its `Connection`.
pub proof fn lemma_connection_any_case(path: Seq<char>, h: stream_httparse::Headers<'static>, c: HeaderVal)
    requires
        header_lookup(h, "Connection"@) == Some(c),
        ascii_lower(value_text(c)) == "upgrade"@,
    ensures
        !(spec_parse_initial(path, h) matches Err(SpecInitialError::InvalidConnection(_))),
{
}

/// The `Upgrade` header is accepted in any ASCII case of `websocket`: a
/// request whose `Upgrade` value is `websocket` up to ASCII case is never
/// refused for its `Upgrade`.
pub proof fn lemma_upgrade_any_case(path: Seq<char>, h: stream_httparse::Headers<'static>, u: HeaderVal)
    requires
        header_lookup(h, "Upgrade"@) == Some(u),
        ascii_lower(value_text(u)) == "websocket"@,
    ensures
        !(spec_parse_initial(path, h) matches Err(SpecInitialError::InvalidUpgrade(_))),
{
}

} // verus!
