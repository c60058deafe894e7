use tunneload::rules::service::Service;

#[test]
fn round_robin_0_entries() {
    let tmp = Service::new("test", vec![]);

    assert_eq!(None, tmp.round_robin());
}
#[test]
fn round_robin_1_entry() {
    let tmp = Service::new("test", vec!["test1".to_owned()]);

    assert_eq!(Some("test1"), tmp.round_robin());
    assert_eq!(Some("test1"), tmp.round_robin());
}
#[test]
fn round_robin_2_entries() {
    let tmp = Service::new("test", vec!["test1".to_owned(), "test2".to_owned()]);

    assert_eq!(Some("test1"), tmp.round_robin());
    assert_eq!(Some("test2"), tmp.round_robin());
}

#[test]
fn round_robin_wraps_around() {
    let tmp = Service::new("test", vec!["a".to_owned(), "b".to_owned()]);

    assert_eq!(Some("a"), tmp.round_robin());
    assert_eq!(Some("b"), tmp.round_robin());
    assert_eq!(Some("a"), tmp.round_robin());
}

#[test]
fn partial_eq_same() {
    assert_eq!(
        Service::new("test-1", vec![]),
        Service::new("test-1", vec![])
    );
}
#[test]
fn partial_eq_different_capitalization() {
    assert_ne!(
        Service::new("TeSt-1", vec![]),
        Service::new("test-1", vec![])
    );
}
#[test]
fn partial_eq_different() {
    assert_ne!(
        Service::new("test-1", vec![]),
        Service::new("test-2", vec![])
    );
}

#[test]
fn partial_eq_ignores_addresses() {
    assert_eq!(
        Service::new("svc", vec!["a".to_owned()]),
        Service::new("svc", vec!["b".to_owned()])
    );
}

#[test]
fn name_and_addresses() {
    let tmp = Service::new("svc", vec!["a".to_owned(), "b".to_owned()]);
    assert_eq!("svc", tmp.name());
    assert_eq!(&["a".to_owned(), "b".to_owned()], tmp.addresses());
}

#[test]
fn address_at_wraps_around() {
    let tmp = Service::new("test", vec!["a".to_owned(), "b".to_owned(), "c".to_owned()]);
    assert_eq!("a", tmp.address_at(0));
    assert_eq!("c", tmp.address_at(2));
    assert_eq!("b", tmp.address_at(4));
    assert_eq!("a", tmp.address_at(usize::MAX - 0));
}
