use std::sync::Arc;

use stream_httparse::{Headers, Method};
use tunneload::http::{Request, Response};
use tunneload::rules::action::Action;
use tunneload::rules::matcher::Matcher;
use tunneload::rules::middleware::Middleware;
use tunneload::rules::middleware_list::MiddlewareList;
use tunneload::rules::rule::Rule;
use tunneload::rules::rule_list::{apply_op, find, ListOp};
use tunneload::rules::service::Service;

fn host_request(host: &'static str, path: &str) -> Request {
    let mut headers = Headers::new();
    headers.set("Host", host);
    Request::new("HTTP/1.1", Method::GET, path, headers, "".as_bytes())
}

fn test_service() -> Arc<Service> {
    Arc::new(Service::new("test", vec!["test".to_owned()]))
}

#[test]
fn test_1_matches_valid() {
    let req = host_request("lol3r.net", "/");

    let rule = Rule::new(
        "test-rule".to_owned(),
        1,
        Matcher::Domain("lol3r.net".to_owned()),
        vec![],
        test_service(),
    );

    assert_eq!(true, rule.matches(&req));
}

#[test]
fn test_1_matches_invalid() {
    let req = host_request("lol3r.net", "/");

    let rule = Rule::new(
        "test-rule".to_owned(),
        1,
        Matcher::Domain("google.com".to_owned()),
        vec![],
        test_service(),
    );

    assert_eq!(false, rule.matches(&req));
}

#[test]
fn test_2_matches_valid() {
    let req = host_request("lol3r.net", "/api/test");

    let rule = Rule::new(
        "test-rule".to_owned(),
        1,
        Matcher::And(vec![
            Matcher::Domain("lol3r.net".to_owned()),
            Matcher::PathPrefix("/api/".to_owned()),
        ]),
        vec![],
        test_service(),
    );

    assert_eq!(true, rule.matches(&req));
}

#[test]
fn test_2_matches_invalid_1() {
    let req = host_request("lol3r.net", "/api/test");

    let rule = Rule::new(
        "test-rule".to_owned(),
        1,
        Matcher::And(vec![
            Matcher::Domain("google.com".to_owned()),
            Matcher::PathPrefix("/api/".to_owned()),
        ]),
        vec![],
        test_service(),
    );

    assert_eq!(false, rule.matches(&req));
}

#[test]
fn test_2_matches_invalid_2() {
    let req = host_request("lol3r.net", "/api/test");

    let rule = Rule::new(
        "test-rule".to_owned(),
        1,
        Matcher::And(vec![
            Matcher::Domain("lol3r.net".to_owned()),
            Matcher::PathPrefix("/other/".to_owned()),
        ]),
        vec![],
        test_service(),
    );

    assert_eq!(false, rule.matches(&req));
}

#[test]
fn rule_accessors() {
    let mut rule = Rule::new(
        "r".to_owned(),
        7,
        Matcher::Domain("example.com".to_owned()),
        vec![],
        test_service(),
    );
    assert_eq!(7, rule.priority());
    assert_eq!("r", rule.name());
    assert_eq!(None, rule.tls());
    assert_eq!(Some("example.com".to_owned()), rule.get_host());
    assert_eq!("test", rule.service().name());
    rule.set_tls("cert".to_owned());
    assert_eq!(Some(&"cert".to_owned()), rule.tls());

    let other = Rule::new(
        "o".to_owned(),
        1,
        Matcher::PathPrefix("/".to_owned()),
        vec![],
        test_service(),
    );
    assert_eq!(None, other.get_host());
    assert_eq!(rule.clone(), rule);
}

fn rule(name: &str, priority: u32, matcher: Matcher) -> Rule {
    Rule::new(name.to_owned(), priority, matcher, vec![], test_service())
}

fn names(list: &Vec<Arc<Rule>>) -> Vec<String> {
    list.iter().map(|r| r.name().to_owned()).collect()
}

#[test]
fn rule_list_add_sort_is_stable() {
    let mut list: Vec<Arc<Rule>> = Vec::new();
    apply_op(&mut list, &ListOp::Add(rule("a", 1, Matcher::PathPrefix("/".to_owned()))));
    apply_op(&mut list, &ListOp::Add(rule("b", 5, Matcher::PathPrefix("/".to_owned()))));
    apply_op(&mut list, &ListOp::Add(rule("c", 1, Matcher::PathPrefix("/".to_owned()))));
    apply_op(&mut list, &ListOp::Add(rule("d", 5, Matcher::PathPrefix("/".to_owned()))));
    apply_op(&mut list, &ListOp::Add(rule("e", 3, Matcher::PathPrefix("/".to_owned()))));
    apply_op(&mut list, &ListOp::Sort);
    assert_eq!(vec!["b", "d", "e", "a", "c"], names(&list));
}

#[test]
fn rule_list_replace_by_name() {
    let mut list: Vec<Arc<Rule>> = Vec::new();
    apply_op(&mut list, &ListOp::Add(rule("a", 1, Matcher::PathPrefix("/".to_owned()))));
    apply_op(&mut list, &ListOp::Add(rule("b", 2, Matcher::PathPrefix("/".to_owned()))));
    apply_op(&mut list, &ListOp::Replace(rule("a", 9, Matcher::PathPrefix("/x".to_owned()))));
    assert_eq!(vec!["b", "a"], names(&list));
    assert_eq!(9, list[1].priority());
    apply_op(&mut list, &ListOp::Replace(rule("c", 0, Matcher::PathPrefix("/".to_owned()))));
    assert_eq!(vec!["b", "a", "c"], names(&list));
    apply_op(&mut list, &ListOp::Clear);
    assert_eq!(0, list.len());
}

#[test]
fn rule_list_find_first_match() {
    let mut list: Vec<Arc<Rule>> = Vec::new();
    apply_op(&mut list, &ListOp::Add(rule("low", 1, Matcher::PathPrefix("/".to_owned()))));
    apply_op(
        &mut list,
        &ListOp::Add(rule("api", 10, Matcher::PathPrefix("/api".to_owned()))),
    );
    apply_op(
        &mut list,
        &ListOp::Add(rule("host", 5, Matcher::Domain("example.com".to_owned()))),
    );
    apply_op(&mut list, &ListOp::Sort);

    let req = host_request("example.com", "/api/x");
    assert_eq!("api", find(&list, &req).unwrap().name());
    let req = host_request("example.com", "/other");
    assert_eq!("host", find(&list, &req).unwrap().name());
    let req = host_request("other.org", "/other");
    assert_eq!("low", find(&list, &req).unwrap().name());

    let mut only_api: Vec<Arc<Rule>> = Vec::new();
    apply_op(
        &mut only_api,
        &ListOp::Add(rule("api", 10, Matcher::PathPrefix("/api".to_owned()))),
    );
    assert_eq!(true, find(&only_api, &req).is_none());
}

#[test]
fn middleware_list_applies_in_order() {
    let first = Arc::new(Middleware::new("strip", Action::RemovePrefix("/api".to_owned())));
    let second = Arc::new(Middleware::new("strip-v1", Action::RemovePrefix("/v1".to_owned())));
    let headers = Arc::new(Middleware::new(
        "headers",
        Action::AddHeaders(vec![("X-Test".to_owned(), "yes".to_owned())]),
    ));
    assert_eq!("strip", first.get_name());
    assert_eq!("headers", headers.name());

    let list = MiddlewareList::from(&[first, second, headers][..]);
    let mut req = host_request("example.com", "/api/v1/items");
    assert_eq!(true, list.apply_middlewares_req(&mut req).is_ok());
    assert_eq!("/items", req.path());

    let mut resp = Response::new("HTTP/1.1", 200, Headers::new(), Vec::new());
    list.apply_middlewares_resp(&req, &mut resp);
    assert_eq!(1, resp.headers().get_header_count());
    assert_eq!(true, resp.headers().get("x-test").is_some());
}

#[test]
fn rule_middleware_list() {
    let strip = Arc::new(Middleware::new("strip", Action::RemovePrefix("/api".to_owned())));
    let r = Rule::new(
        "r".to_owned(),
        1,
        Matcher::PathPrefix("/api".to_owned()),
        vec![strip],
        test_service(),
    );
    let mut req = host_request("example.com", "/api/x");
    assert_eq!(true, r.get_middleware_list().apply_middlewares_req(&mut req).is_ok());
    assert_eq!("/x", req.path());
}
