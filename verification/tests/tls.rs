use std::path::PathBuf;

use tunneload::rules::matcher::Matcher;
use tunneload::tls::auto::acme::{Environment, PendingTLS};
use tunneload::tls::auto::challenges::{ChallengeList, ChallengeState};
use tunneload::tls::auto::cluster::{ClusterAction, ClusterRequest, ClusterResponse, StorageError};
use tunneload::tls::auto::consensus::network::{addr_to_id, id_to_addr, Network};
use tunneload::tls::auto::consensus::state_machine::{StateEffect, StateMachine};
use tunneload::tls::auto::consensus::{Action, Request, Response};
use tunneload::tls::stores::files::FileStore;

fn state_name(state: &Option<ChallengeState>) -> String {
    match state {
        None => "none".to_owned(),
        Some(ChallengeState::Pending) => "pending".to_owned(),
        Some(ChallengeState::Data(d)) => format!("data:{}", d.len()),
        Some(ChallengeState::Finished) => "finished".to_owned(),
    }
}

#[test]
fn challenge_list_updates() {
    let mut list = ChallengeList::new();
    assert_eq!("none", state_name(&list.get_state("example.com")));

    list.update_state("example.com".to_owned(), ChallengeState::Pending);
    assert_eq!("pending", state_name(&list.get_state("example.com")));

    list.update_state(
        "example.com".to_owned(),
        ChallengeState::Data(vec![("token".to_owned(), "key".to_owned())]),
    );
    list.update_state("other.org".to_owned(), ChallengeState::Finished);
    assert_eq!("data:1", state_name(&list.get_challenge("example.com")));
    assert_eq!("finished", state_name(&list.get_challenge("other.org")));
    assert_eq!(2, list.clone_map().len());

    list.remove_state("example.com");
    assert_eq!("none", state_name(&list.get_state("example.com")));
    assert_eq!("finished", state_name(&list.get_state("other.org")));
    assert_eq!(1, list.clone_map().len());
}

#[test]
fn challenge_list_set_map_last_wins() {
    let mut list = ChallengeList::new();
    list.update_state("gone.net".to_owned(), ChallengeState::Pending);
    list.set_map(vec![
        ("a.com".to_owned(), ChallengeState::Pending),
        ("a.com".to_owned(), ChallengeState::Finished),
        ("b.com".to_owned(), ChallengeState::Pending),
    ]);
    assert_eq!("finished", state_name(&list.get_state("a.com")));
    assert_eq!("pending", state_name(&list.get_state("b.com")));
    assert_eq!("none", state_name(&list.get_state("gone.net")));
    assert_eq!(2, list.clone_map().len());
}

#[test]
fn state_machine_applies_entries() {
    let mut sm = StateMachine::new(ChallengeList::new());
    assert_eq!(0, sm.last_log());
    sm.update_last_log(3);
    assert_eq!(3, sm.last_log());

    let effect = sm.apply(&Request { domain_name: "example.com".to_owned(), action: Action::MissingCert });
    match effect {
        StateEffect::RequestCertificate(d) => assert_eq!("example.com", d),
        other => panic!("unexpected effect {:?}", other),
    }

    let effect = sm.apply(&Request {
        domain_name: "example.com".to_owned(),
        action: Action::VerifyingData(vec![("t".to_owned(), "k".to_owned())]),
    });
    match effect {
        StateEffect::SetRule(name, priority, matcher) => {
            assert_eq!("ACME-example.com", name);
            assert_eq!(100, priority);
            assert_eq!(
                Matcher::And(vec![
                    Matcher::Domain("example.com".to_owned()),
                    Matcher::PathPrefix("/.well-known/".to_owned()),
                ]),
                matcher
            );
        }
        other => panic!("unexpected effect {:?}", other),
    }
    let entries = sm.clone_challenges();
    assert_eq!(1, entries.len());
    assert_eq!("data:1", state_name(&Some(entries[0].1.clone())));

    let effect = sm.apply(&Request { domain_name: "example.com".to_owned(), action: Action::Finish });
    match effect {
        StateEffect::RemoveRule(name) => assert_eq!("ACME-example.com", name),
        other => panic!("unexpected effect {:?}", other),
    }
    assert_eq!("finished", state_name(&Some(sm.clone_challenges()[0].1.clone())));

    let effect = sm.apply(&Request { domain_name: "example.com".to_owned(), action: Action::Failed });
    match effect {
        StateEffect::RemoveRule(name) => assert_eq!("ACME-example.com", name),
        other => panic!("unexpected effect {:?}", other),
    }
    assert_eq!(0, sm.clone_challenges().len());
    assert_eq!(3, sm.last_log());

    sm.replace_challenges(vec![("x.org".to_owned(), ChallengeState::Pending)]);
    assert_eq!(1, sm.clone_challenges().len());
    assert_eq!("ACME-x.org", StateMachine::generate_rule_name("x.org"));
    let _ = Response {};
}

#[test]
fn node_ids_and_addresses() {
    let (octets, port) = id_to_addr(0x0a00_0102, 8375);
    assert_eq!([10, 0, 1, 2], octets);
    assert_eq!(8375, port);
    assert_eq!(Some(0x0a00_0102), addr_to_id([10, 0, 1, 2]));
    let (octets, _) = id_to_addr(0x1234_5678_c0a8_0001, 1);
    assert_eq!([192, 168, 0, 1], octets);
    assert_eq!(Some(0xc0a8_0001), addr_to_id(octets));
    let _ = Network::new();
}

#[test]
fn letsencrypt_urls() {
    assert_eq!(
        "https://acme-staging-v02.api.letsencrypt.org/directory",
        Environment::Staging.url()
    );
    assert_eq!(
        "https://acme-v02.api.letsencrypt.org/directory",
        Environment::Production.url()
    );
}

#[test]
fn pending_tls_parts() {
    let pending = PendingTLS::new("the-key".to_owned(), "the-token".to_owned());
    assert_eq!("the-key", pending.key());
    assert_eq!("the-token", pending.token());
}

#[test]
fn cluster_values() {
    let req = ClusterRequest::new("example.com".to_owned(), ClusterAction::MissingCert);
    assert_eq!(true, format!("{:?}", req).contains("example.com"));
    let _ = ClusterRequest::new(
        "example.com".to_owned(),
        ClusterAction::AddVerifyingData(vec![("t".to_owned(), "k".to_owned())]),
    );
    let _ = ClusterAction::RemoveVerifyingData;
    let _ = ClusterResponse {};
    assert_eq!("InconsistentLogs", format!("{:?}", StorageError::InconsistentLogs));
}

#[test]
fn generate_file_name() {
    let file_store = FileStore::new("test/".to_owned());

    assert_eq!(
        PathBuf::from("test/example.com.tunneload.cert"),
        PathBuf::from(file_store.cert_path("example.com"))
    );
}

#[test]
fn is_cert_file() {
    assert_eq!(true, FileStore::is_cert_file("test/example.com.tunneload.cert"));
}

#[test]
fn cert_domain() {
    assert_eq!(
        Some("example.com".to_owned()),
        FileStore::get_domain("test/example.com.tunneload.cert")
    );
}

#[test]
fn file_store_paths() {
    let store = FileStore::new("certs".to_owned());
    assert_eq!("certs/acc.key", store.get_path("acc.key"));
    assert_eq!("/abs/acc.key", store.get_path("/abs/acc.key"));
    assert_eq!("a.tunneload.cert", FileStore::cert_filename("a"));
    let empty = FileStore::new("".to_owned());
    assert_eq!("acc.key", empty.get_path("acc.key"));
    assert_eq!(false, FileStore::is_cert_file("certs/acc.key"));
    assert_eq!(None, FileStore::get_domain("certs/acc.key"));
    assert_eq!(false, FileStore::is_cert_file("certs/.."));
    assert_eq!(Some("x".to_owned()), FileStore::get_domain("x.tunneload.cert/"));
}

use std::collections::HashSet;
use tunneload::tls::auto::discovery::{add_new_nodes, keep_present_nodes, on_endpoints_updated};
use tunneload::tls::auto::session::{first_step, verify_parts, FirstStep};

#[test]
fn certificate_first_step() {
    assert_eq!(FirstStep::Proceed, first_step(true, true));
    assert_eq!(FirstStep::Proceed, first_step(true, false));
    assert_eq!(FirstStep::NotifyCluster, first_step(false, true));
    assert_eq!(FirstStep::Stop, first_step(false, false));
}

#[test]
fn verify_parts_pairs() {
    let pending = vec![
        PendingTLS::new("k1".to_owned(), "t1".to_owned()),
        PendingTLS::new("k2".to_owned(), "t2".to_owned()),
    ];
    assert_eq!(
        vec![("t1".to_owned(), "k1".to_owned()), ("t2".to_owned(), "k2".to_owned())],
        verify_parts(&pending)
    );
}

#[test]
fn discovered_nodes() {
    let mut nodes: HashSet<u64> = HashSet::new();
    nodes.insert(1);
    let added = add_new_nodes(&mut nodes, &vec![3, 1, 2, 3]);
    assert_eq!(vec![3, 2], added);
    assert_eq!(3, nodes.len());

    keep_present_nodes(&mut nodes, &vec![2, 3, 9]);
    let mut left: Vec<u64> = nodes.iter().cloned().collect();
    left.sort();
    assert_eq!(vec![2, 3], left);

    assert_eq!(0, on_endpoints_updated(&mut nodes, Some(1), &vec![3]).len());
    assert_eq!(vec![3], nodes.iter().cloned().collect::<Vec<u64>>());
    assert_eq!(vec![4], on_endpoints_updated(&mut nodes, Some(2), &vec![3, 4]));
    assert_eq!(2, nodes.len());
    assert_eq!(0, on_endpoints_updated(&mut nodes, None, &vec![]).len());
    assert_eq!(0, nodes.len());
}

#[test]
fn challenge_snapshot_round_trip() {
    let mut list = ChallengeList::new();
    list.update_state("a.com".to_owned(), ChallengeState::Pending);
    list.update_state(
        "b.com".to_owned(),
        ChallengeState::Data(vec![("t".to_owned(), "k".to_owned())]),
    );
    let mut restored = ChallengeList::new();
    restored.set_map(list.clone_map());
    assert_eq!("pending", state_name(&restored.get_state("a.com")));
    assert_eq!("data:1", state_name(&restored.get_state("b.com")));
    assert_eq!(2, restored.clone_map().len());
}

use stream_httparse::header::HeaderValue;
use stream_httparse::{Headers, Method};
use tunneload::tls::auto::cluster::network::{json_response, route, route_cuts_ok, ClusterRoute};

fn path_request(path: &str) -> tunneload::http::Request {
    tunneload::http::Request::new("HTTP/1.1", Method::POST, path, Headers::new(), &[])
}

#[test]
fn cluster_routes() {
    assert_eq!(ClusterRoute::LeaderWrite, route(&path_request("/leader/write")));
    assert_eq!(ClusterRoute::LeaderOther, route(&path_request("/leader")));
    assert_eq!(ClusterRoute::AppendEntries, route(&path_request("/entries/append")));
    assert_eq!(ClusterRoute::InstallSnapshot, route(&path_request("/snapshot/install")));
    assert_eq!(ClusterRoute::Vote, route(&path_request("/vote")));
    assert_eq!(ClusterRoute::Unknown, route(&path_request("/other")));
    assert_eq!(true, route_cuts_ok(&path_request("/vote")));
    assert_eq!(false, route_cuts_ok(&path_request("/leadeä")));
}

#[test]
fn cluster_json_response() {
    let resp = json_response(b"{}".to_vec());
    assert_eq!(200, resp.status_code);
    assert_eq!("HTTP/1.1", resp.protocol);
    assert_eq!(2, resp.headers().get_header_count());
    assert_eq!(
        Some(&HeaderValue::StrRef("application/json")),
        resp.headers().get("Content-Type")
    );
    assert_eq!(Some(&HeaderValue::NumberUsize(2)), resp.headers().get("Content-Length"));
}
