use stream_httparse::header::HeaderValue;
use stream_httparse::{Headers, Method};
use tunneload::http::Request;
use tunneload::metrics::endpoint::metrics_response;

#[test]
fn metrics_only_on_its_path() {
    let req = Request::new("HTTP/1.1", Method::GET, "/metrics", Headers::new(), &[]);
    let resp = metrics_response(&req, b"up 1\n".to_vec()).unwrap();
    assert_eq!(200, resp.status_code);
    assert_eq!("HTTP/1.1", resp.protocol);
    assert_eq!(b"up 1\n", resp.body());
    assert_eq!(Some(&HeaderValue::NumberUsize(5)), resp.headers().get("Content-Length"));

    let other = Request::new("HTTP/1.1", Method::GET, "/other", Headers::new(), &[]);
    assert_eq!(true, metrics_response(&other, Vec::new()).is_none());
}
