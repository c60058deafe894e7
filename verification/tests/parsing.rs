use stream_httparse::Headers;
use tunneload::http::{headers_get, headers_new, headers_set, parse_request, HeaderContent, HeaderInput, Response};
use tunneload::http_head::{request_head_checked, response_head_checked};
use tunneload::metrics::endpoint::metrics_answer;
use tunneload::plugins::action::returned_response;
use tunneload::tls::auto::challenges::{ChallengeList, ChallengeState};
use tunneload::tls::stores::files::FileStore;
use tunneload::tls::auto::session::{cert_step, CertAction, CertEvent};
use tunneload::util::webserver::answer_or_internal_error;

fn text_of(v: Option<HeaderContent>) -> Option<String> {
    match v {
        Some(HeaderContent::Text(s)) => Some(s),
        Some(HeaderContent::Number(n)) => Some(n.to_string()),
        None => None,
    }
}

#[test]
fn header_read_after_set() {
    let mut h = headers_new();
    headers_set(&mut h, "X-Test", HeaderInput::Static("one"));
    assert_eq!(Some("one".to_owned()), text_of(headers_get(&h, "x-test")));
    headers_set(&mut h, "x-TEST", HeaderInput::Owned("two".to_owned()));
    assert_eq!(Some("two".to_owned()), text_of(headers_get(&h, "X-Test")));
    headers_set(&mut h, "Content-Length", HeaderInput::Number(12));
    assert_eq!(Some("12".to_owned()), text_of(headers_get(&h, "content-length")));
    assert_eq!(2, h.get_header_count());
}

#[test]
fn request_parsed_from_bytes() {
    let raw = b"POST /api HTTP/1.1\r\nContent-Length: 3\r\nX-A: b\r\n\r\nabc";
    assert_eq!(true, request_head_checked(raw));
    let req = parse_request(raw).unwrap();
    assert_eq!("/api", req.path());
    assert_eq!("HTTP/1.1", req.protocol());
    assert_eq!(&b"abc"[..], req.body());
    assert_eq!(Some("b".to_owned()), text_of(headers_get(req.headers(), "x-a")));
    assert_eq!(false, request_head_checked(b"GET"));
    assert_eq!(false, request_head_checked(b""));
    assert_eq!(false, request_head_checked(b"GET /a HTTP/1.1\r\nContent-Length: x\r\n\r\n"));
    assert_eq!(false, request_head_checked(b"GET /a HTTP/1.1\r\ncontent-LENGTH: 99\r\n\r\nabc"));
    assert_eq!(true, request_head_checked(b"GET /a HTTP/1.1\r\ncontent-LENGTH: 3\r\n\r\nabc"));
    assert_eq!(false, request_head_checked("GET /\u{e9} HTTP/1.1\r\n\r\n".as_bytes()));
    assert_eq!(false, request_head_checked(b"GET /a HTTP/1.1\r\nNoColon\r\n\r\n"));
    assert_eq!(true, request_head_checked(b"GET /a HTTP/1.1\r\nX: \r\n\r\n"));
    assert_eq!(true, response_head_checked(b"HTTP/1.1 200 OK\r\n\r\n\xff\xfe"));
    assert_eq!(false, response_head_checked(b"HTTP/1.1\r\n\r\n"));
}

#[test]
fn metrics_answer_from_bytes() {
    let body = b"metric 1\n".to_vec();
    let resp = metrics_answer(b"GET /metrics HTTP/1.0\r\nHost: x\r\n\r\n", body.clone()).unwrap();
    assert_eq!(200, resp.status_code);
    assert_eq!("HTTP/1.0", resp.protocol);
    assert_eq!(&body[..], resp.body());
    assert_eq!(1, resp.headers().get_header_count());
    assert_eq!(Some("9".to_owned()), text_of(headers_get(resp.headers(), "Content-Length")));

    assert_eq!(true, metrics_answer(b"GET /other HTTP/1.1\r\n\r\n", body.clone()).is_none());
    assert_eq!(true, metrics_answer(b"GET /metrics", body.clone()).is_none());
    assert_eq!(
        true,
        metrics_answer(b"GET /metrics HTTP/1.1\r\nContent-Length: ten\r\n\r\n", body).is_none()
    );
}

fn plugin_memory(resp: &[u8], declared: u32) -> Vec<u8> {
    let mut mem = vec![0u8; 8];
    mem.extend_from_slice(&declared.to_be_bytes());
    mem.extend_from_slice(resp);
    mem.extend_from_slice(&[7, 7, 7]);
    mem
}

#[test]
fn plugin_returned_response() {
    let raw = b"HTTP/1.1 404 Not Found\r\nContent-Length: 2\r\nX-P: q\r\n\r\nno";
    let mem = plugin_memory(raw, raw.len() as u32);
    let resp = returned_response(&mem, 8).unwrap();
    assert_eq!(404, resp.status_code);
    assert_eq!("HTTP/1.1", resp.protocol);
    assert_eq!(&b"no"[..], resp.body());
    assert_eq!(Some("q".to_owned()), text_of(headers_get(resp.headers(), "x-p")));

    let short = plugin_memory(raw, (raw.len() - 1) as u32);
    assert_eq!(true, returned_response(&short, 8).is_none());
    let head_only = b"HTTP/1.1 200";
    let mem = plugin_memory(head_only, head_only.len() as u32);
    assert_eq!(true, returned_response(&mem, 8).is_none());
    let bad_length = b"HTTP/1.1 200 OK\r\nContent-Length: 2x\r\n\r\nno";
    let mem = plugin_memory(bad_length, bad_length.len() as u32);
    assert_eq!(true, returned_response(&mem, 8).is_none());
    let binary = b"HTTP/1.1 200 OK\r\nContent-Length: 2\r\n\r\n\xff\x00";
    let mem = plugin_memory(binary, binary.len() as u32);
    assert_eq!(&[0xffu8, 0][..], returned_response(&mem, 8).unwrap().body());
}

#[test]
fn response_body_sets_length() {
    let mut resp = Response::new("HTTP/1.1", 200, Headers::new(), Vec::new());
    resp.set_body(vec![1, 2, 3]);
    assert_eq!(&[1u8, 2, 3][..], resp.body());
    assert_eq!(Some("3".to_owned()), text_of(headers_get(resp.headers(), "content-length")));
    resp.set_body(Vec::new());
    assert_eq!(1, resp.headers().get_header_count());
    assert_eq!(Some("0".to_owned()), text_of(headers_get(resp.headers(), "Content-Length")));
}

#[test]
fn certificate_domain_round_trip() {
    for folder in ["certs", "certs/", "", "/var/lib/tl"] {
        let store = FileStore::new(folder.to_owned());
        for domain in ["example.com", "a", "..", "x.tunneload.cert"] {
            let path = store.cert_path(domain);
            assert_eq!(true, FileStore::is_cert_file(&path));
            assert_eq!(Some(domain.to_owned()), FileStore::get_domain(&path));
        }
    }
}

#[test]
fn challenges_read_back_after_set() {
    let mut list = ChallengeList::new();
    list.set_map(vec![
        ("a.com".to_owned(), ChallengeState::Pending),
        ("b.com".to_owned(), ChallengeState::Finished),
    ]);
    let copied = list.clone_map();
    assert_eq!(2, copied.len());
    list.update_state("a.com".to_owned(), ChallengeState::Finished);
    let pending: Vec<&String> = copied
        .iter()
        .filter(|(_, s)| matches!(s, ChallengeState::Pending))
        .map(|(d, _)| d)
        .collect();
    assert_eq!(vec!["a.com"], pending);
}

#[test]
fn handler_errors_become_status_500() {
    let ok = Response::new("HTTP/1.0", 204, Headers::new(), vec![1]);
    let out = answer_or_internal_error::<()>(Ok(ok));
    assert_eq!(204, out.status_code);
    assert_eq!("HTTP/1.0", out.protocol);
    assert_eq!(&[1u8][..], out.body());
    let failed = answer_or_internal_error::<()>(Err(()));
    assert_eq!(500, failed.status_code);
    assert_eq!("HTTP/1.1", failed.protocol);
    assert_eq!(0, failed.headers().get_header_count());
    assert_eq!(0, failed.body().len());
}

#[test]
fn certificate_procedure_steps() {
    assert_eq!(CertAction::CreateOrder, cert_step(CertEvent::Account(true)));
    assert_eq!(CertAction::Stop, cert_step(CertEvent::Account(false)));
    assert_eq!(CertAction::PublishAndValidate, cert_step(CertEvent::Order(true)));
    assert_eq!(CertAction::Stop, cert_step(CertEvent::Order(false)));
    assert_eq!(CertAction::Finalize, cert_step(CertEvent::Ready(true)));
    assert_eq!(CertAction::WriteFailedCert, cert_step(CertEvent::Ready(false)));
    assert_eq!(CertAction::AnnounceFinished, cert_step(CertEvent::Valid(true)));
    assert_eq!(CertAction::WriteFailedCert, cert_step(CertEvent::Valid(false)));
    assert_eq!(CertAction::StoreCertificates, cert_step(CertEvent::Announced(true)));
    assert_eq!(CertAction::Stop, cert_step(CertEvent::Announced(false)));
}
