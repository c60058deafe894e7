use stream_httparse::{Headers, Method};
use tunneload::http::Request;
use tunneload::rules::matcher::Matcher;

#[test]
fn matcher_domain_matching() {
    let mut headers = Headers::new();
    headers.set("Host", "lol3r.net");

    let req = Request::new("HTTP/1.1", Method::GET, "/path", headers, "".as_bytes());

    let rule = Matcher::Domain("lol3r.net".to_owned());
    assert_eq!(true, rule.matches(&req));
}
#[test]
fn matcher_domain_not_matching() {
    let mut headers = Headers::new();
    headers.set("Host", "lol3r.net");

    let req = Request::new("HTTP/1.1", Method::GET, "/path", headers, "".as_bytes());

    let rule = Matcher::Domain("google.com".to_owned());
    assert_eq!(false, rule.matches(&req));
}

#[test]
fn matcher_pathprefix_matching() {
    let headers = Headers::new();

    let req = Request::new("HTTP/1.1", Method::GET, "/api/test", headers, "".as_bytes());

    let rule = Matcher::PathPrefix("/api/".to_owned());
    assert_eq!(true, rule.matches(&req));
}
#[test]
fn matcher_pathprefix_not_matching() {
    let headers = Headers::new();

    let req = Request::new(
        "HTTP/1.1",
        Method::GET,
        "/otherapi/test",
        headers,
        "".as_bytes(),
    );

    let rule = Matcher::PathPrefix("/api/".to_owned());
    assert_eq!(false, rule.matches(&req));
}
#[test]
fn matcher_pathprefix_not_matching_shorter_path() {
    let headers = Headers::new();

    let req = Request::new("HTTP/1.1", Method::GET, "/", headers, "".as_bytes());

    let rule = Matcher::PathPrefix("/api/".to_owned());
    assert_eq!(false, rule.matches(&req));
}

#[test]
fn and_all_matching() {
    let mut headers = Headers::new();
    headers.set("Host", "example.net");
    let req = Request::new("HTTP/1.1", Method::GET, "/api/test", headers, "".as_bytes());

    let rule = Matcher::And(vec![
        Matcher::PathPrefix("/api/".to_owned()),
        Matcher::Domain("example.net".to_owned()),
    ]);

    assert_eq!(true, rule.matches(&req));
}
#[test]
fn and_one_not_matching() {
    let mut headers = Headers::new();
    headers.set("Host", "example.net");
    let req = Request::new("HTTP/1.1", Method::GET, "/test", headers, "".as_bytes());

    let rule = Matcher::And(vec![
        Matcher::PathPrefix("/api/".to_owned()),
        Matcher::Domain("example.net".to_owned()),
    ]);

    assert_eq!(false, rule.matches(&req));
}

#[test]
fn or_all_matching() {
    let mut headers = Headers::new();
    headers.set("Host", "example.net");
    let req = Request::new("HTTP/1.1", Method::GET, "/api/test", headers, "".as_bytes());

    let rule = Matcher::Or(vec![
        Matcher::PathPrefix("/api/".to_owned()),
        Matcher::Domain("example.net".to_owned()),
    ]);

    assert_eq!(true, rule.matches(&req));
}
#[test]
fn or_one_matching() {
    let mut headers = Headers::new();
    headers.set("Host", "example.net");
    let req = Request::new("HTTP/1.1", Method::GET, "/test", headers, "".as_bytes());

    let rule = Matcher::Or(vec![
        Matcher::PathPrefix("/api/".to_owned()),
        Matcher::Domain("example.net".to_owned()),
    ]);

    assert_eq!(true, rule.matches(&req));
}
#[test]
fn or_none_matching() {
    let mut headers = Headers::new();
    headers.set("Host", "other.net");
    let req = Request::new("HTTP/1.1", Method::GET, "/test", headers, "".as_bytes());

    let rule = Matcher::Or(vec![
        Matcher::PathPrefix("/api/".to_owned()),
        Matcher::Domain("example.net".to_owned()),
    ]);

    assert_eq!(false, rule.matches(&req));
}

#[test]
fn matcher_domain_header_case_insensitive_key() {
    let mut headers = Headers::new();
    headers.set("host", "example.net");
    let req = Request::new("HTTP/1.1", Method::GET, "/", headers, "".as_bytes());

    assert_eq!(true, Matcher::Domain("example.net".to_owned()).matches(&req));
}

#[test]
fn matcher_domain_numeric_host_never_matches() {
    let mut headers = Headers::new();
    headers.set("Host", 80usize);
    let req = Request::new("HTTP/1.1", Method::GET, "/", headers, "".as_bytes());

    assert_eq!(false, Matcher::Domain("80".to_owned()).matches(&req));
}

#[test]
fn empty_and_matches_empty_or_does_not() {
    let req = Request::new("HTTP/1.1", Method::GET, "/", Headers::new(), "".as_bytes());

    assert_eq!(true, Matcher::And(vec![]).matches(&req));
    assert_eq!(false, Matcher::Or(vec![]).matches(&req));
}

#[test]
fn get_host_domain() {
    let matcher = Matcher::Domain("test".to_owned());
    assert_eq!(Some("test".to_owned()), matcher.get_host());
}
#[test]
fn get_host_path_prefix() {
    let matcher = Matcher::PathPrefix("test".to_owned());
    assert_eq!(None, matcher.get_host());
}
#[test]
fn get_host_and_path_domain() {
    let matcher = Matcher::And(vec![
        Matcher::PathPrefix("test".to_owned()),
        Matcher::Domain("test".to_owned()),
    ]);
    assert_eq!(Some("test".to_owned()), matcher.get_host());
}
#[test]
fn get_host_or_path_domain() {
    let matcher = Matcher::Or(vec![
        Matcher::PathPrefix("test".to_owned()),
        Matcher::Domain("test".to_owned()),
    ]);
    assert_eq!(Some("test".to_owned()), matcher.get_host());
}
#[test]
fn get_host_and_path() {
    let matcher = Matcher::And(vec![Matcher::PathPrefix("test".to_owned())]);
    assert_eq!(None, matcher.get_host());
}
#[test]
fn get_host_or_path() {
    let matcher = Matcher::Or(vec![Matcher::PathPrefix("test".to_owned())]);
    assert_eq!(None, matcher.get_host());
}

#[test]
fn get_host_first_of_nested() {
    let matcher = Matcher::Or(vec![
        Matcher::And(vec![Matcher::Domain("first".to_owned())]),
        Matcher::Domain("second".to_owned()),
    ]);
    assert_eq!(Some("first".to_owned()), matcher.get_host());
}

#[test]
fn clone_keeps_matcher() {
    let matcher = Matcher::And(vec![
        Matcher::PathPrefix("/a".to_owned()),
        Matcher::Or(vec![Matcher::Domain("b".to_owned())]),
    ]);
    assert_eq!(matcher, matcher.clone());
}
