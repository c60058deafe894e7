use stream_httparse::{Headers, Method};
use tunneload::http::Request;
use tunneload::websockets::dataframe::{DataFrame, FrameProgress};
use tunneload::websockets::handshake::client_initial::{parse, InitialRequest, InitialRequestError};
use tunneload::websockets::is_websocket::is_websocket;

#[test]
fn no_host_header() {
    let headers = Headers::new();
    let request = Request::new("HTTP/1.1", Method::GET, "/test", headers, &[]);

    assert_eq!(Err(InitialRequestError::MissingHost), parse(&request));
}
#[test]
fn no_upgrade_header() {
    let mut headers = Headers::new();
    headers.append("Host", "test authority");
    let request = Request::new("HTTP/1.1", Method::GET, "/test", headers, &[]);

    assert_eq!(Err(InitialRequestError::MissingUpgrade), parse(&request));
}
#[test]
fn invalid_upgrade_header() {
    let mut headers = Headers::new();
    headers.append("Host", "test authority");
    headers.append("Upgrade", "other");
    let request = Request::new("HTTP/1.1", Method::GET, "/test", headers, &[]);

    assert_eq!(
        Err(InitialRequestError::InvalidUpgrade("other".to_string())),
        parse(&request)
    );
}
#[test]
fn no_connection_header() {
    let mut headers = Headers::new();
    headers.append("Host", "test authority");
    headers.append("Upgrade", "websocket");
    let request = Request::new("HTTP/1.1", Method::GET, "/test", headers, &[]);

    assert_eq!(Err(InitialRequestError::MissingConnection), parse(&request));
}
#[test]
fn invalid_connection_header() {
    let mut headers = Headers::new();
    headers.append("Host", "test authority");
    headers.append("Upgrade", "websocket");
    headers.append("Connection", "other");
    let request = Request::new("HTTP/1.1", Method::GET, "/test", headers, &[]);

    assert_eq!(
        Err(InitialRequestError::InvalidConnection("other".to_string())),
        parse(&request)
    );
}
#[test]
fn no_key() {
    let mut headers = Headers::new();
    headers.append("Host", "test authority");
    headers.append("Upgrade", "websocket");
    headers.append("Connection", "Upgrade");

    let request = Request::new("HTTP/1.1", Method::GET, "/test", headers, &[]);

    assert_eq!(Err(InitialRequestError::MissingKey), parse(&request));
}
#[test]
fn invalid_key() {
    let mut headers = Headers::new();
    headers.append("Host", "test authority");
    headers.append("Upgrade", "websocket");
    headers.append("Connection", "Upgrade");
    headers.append("Sec-WebSocket-Key", "aW52YWxpZA==");

    let request = Request::new("HTTP/1.1", Method::GET, "/test", headers, &[]);

    assert_eq!(
        Err(InitialRequestError::InvalidKey("aW52YWxpZA==".to_string())),
        parse(&request)
    );
}
#[test]
fn no_version() {
    let mut headers = Headers::new();
    headers.append("Host", "test authority");
    headers.append("Upgrade", "websocket");
    headers.append("Connection", "Upgrade");
    headers.append("Sec-WebSocket-Key", "d2lydHNjaGFmdHNrdW5kZQ==");

    let request = Request::new("HTTP/1.1", Method::GET, "/test", headers, &[]);

    assert_eq!(Err(InitialRequestError::MissingVersion), parse(&request));
}
#[test]
fn malformed_version_string() {
    let mut headers = Headers::new();
    headers.append("Host", "test authority");
    headers.append("Upgrade", "websocket");
    headers.append("Connection", "Upgrade");
    headers.append("Sec-WebSocket-Key", "d2lydHNjaGFmdHNrdW5kZQ==");
    headers.append("Sec-WebSocket-Version", "test");

    let request = Request::new("HTTP/1.1", Method::GET, "/test", headers, &[]);

    assert_eq!(
        Err(InitialRequestError::InvalidVersion("test".to_string())),
        parse(&request)
    );
}

#[test]
fn minimal_valid_request() {
    let mut headers = Headers::new();
    headers.append("Host", "test authority");
    headers.append("Upgrade", "websocket");
    headers.append("Connection", "Upgrade");
    headers.append("Sec-WebSocket-Key", "d2lydHNjaGFmdHNrdW5kZQ==");
    headers.append("Sec-WebSocket-Version", "13");

    let request = Request::new("HTTP/1.1", Method::GET, "/test", headers, &[]);

    assert_eq!(
        Ok(InitialRequest {
            ressource_name: "/test".to_string(),
            key: "d2lydHNjaGFmdHNrdW5kZQ==".to_string(),
            version: 13,
            origin: None,
            protocol: vec![],
            extensions: vec![],
        }),
        parse(&request)
    );
}

#[test]
fn full_valid_request() {
    let mut headers = Headers::new();
    headers.append("Host", "test authority");
    headers.append("Upgrade", "websocket");
    headers.append("Connection", "Upgrade");
    headers.append("Sec-WebSocket-Key", "d2lydHNjaGFmdHNrdW5kZQ==");
    headers.append("Sec-WebSocket-Version", "13");
    headers.append("Origin", "test origin");
    headers.append("Sec-WebSocket-Protocol", "chat, superchat");
    headers.append("Sec-WebSocket-Extensions", "test-extension1, test-extension2");

    let request = Request::new("HTTP/1.1", Method::GET, "/test", headers, &[]);

    assert_eq!(
        Ok(InitialRequest {
            ressource_name: "/test".to_string(),
            key: "d2lydHNjaGFmdHNrdW5kZQ==".to_string(),
            version: 13,
            origin: Some("test origin".to_string()),
            protocol: vec!["chat".to_string(), "superchat".to_string()],
            extensions: vec!["test-extension1".to_string(), "test-extension2".to_string()],
        }),
        parse(&request)
    );
}

fn frame(opcode: u8, mask: bool, payload_len: u64, masking_key: Option<u32>, payload: Vec<u8>) -> DataFrame {
    DataFrame {
        fin: false,
        rsv_1: false,
        rsv_2: false,
        rsv_3: false,
        opcode,
        mask,
        payload_len,
        masking_key,
        payload,
    }
}

#[test]
fn valid_dataframe_7bit_payload() {
    let mut data = vec![0b00000001, 0b00001010];
    data.extend(vec![0; 10]);
    assert_eq!(
        FrameProgress::Complete(frame(1, false, 10, None, vec![0; 10]), 12),
        DataFrame::decode(&data)
    );
}

#[test]
fn valid_dataframe_16bit_payload() {
    let mut data = vec![0b00000001, 0b01111110, 0x00, 0xff];
    data.extend(vec![0; 0xff]);
    assert_eq!(
        FrameProgress::Complete(frame(1, false, 0xff, None, vec![0; 0xff]), 4 + 0xff),
        DataFrame::decode(&data)
    );
}

#[test]
fn valid_dataframe_64bit_payload() {
    let mut data = vec![0b00000001, 0b01111111, 0x00, 0x00, 0x00, 0x00, 0x00, 0x0f, 0x00, 0x00];
    data.extend(vec![0; 0x0f0000]);
    assert_eq!(
        FrameProgress::Complete(frame(1, false, 0x0f0000, None, vec![0; 0x0f0000]), 10 + 0x0f0000),
        DataFrame::decode(&data)
    );
}

#[test]
fn valid_dataframe_mask() {
    let mut data = vec![0b00000001, 0b10001010, 0x12, 0x34, 0x56, 0x78];
    data.extend(vec![0; 10]);
    assert_eq!(
        FrameProgress::Complete(frame(1, true, 10, Some(0x12345678), vec![0; 10]), 16),
        DataFrame::decode(&data)
    );
}

#[test]
fn dataframe_needs_more_bytes() {
    assert_eq!(FrameProgress::NeedBytes(2), DataFrame::decode(&[]));
    assert_eq!(FrameProgress::NeedBytes(2), DataFrame::decode(&[0x81]));
    assert_eq!(FrameProgress::NeedBytes(4), DataFrame::decode(&[0x81, 126]));
    assert_eq!(FrameProgress::NeedBytes(12), DataFrame::decode(&[0x81, 10, 1, 2]));
}

#[test]
fn dataframe_flags() {
    let data = vec![0b11110010, 0];
    assert_eq!(
        FrameProgress::Complete(
            DataFrame {
                fin: true,
                rsv_1: true,
                rsv_2: true,
                rsv_3: true,
                opcode: 2,
                mask: false,
                payload_len: 0,
                masking_key: None,
                payload: vec![],
            },
            2
        ),
        DataFrame::decode(&data)
    );
}

fn upgrade_request(value: &'static str) -> Request {
    let mut headers = Headers::new();
    headers.set("Upgrade", value);
    Request::new("HTTP/1.1", Method::GET, "/", headers, &[])
}

#[test]
fn websocket_upgrade_detection() {
    assert_eq!(true, is_websocket(&upgrade_request("websocket")));
    assert_eq!(true, is_websocket(&upgrade_request("WebSocket")));
    assert_eq!(true, is_websocket(&upgrade_request("websoc\u{212A}et")));
    assert_eq!(false, is_websocket(&upgrade_request("h2c")));
    let plain = Request::new("HTTP/1.1", Method::GET, "/", Headers::new(), &[]);
    assert_eq!(false, is_websocket(&plain));
}
