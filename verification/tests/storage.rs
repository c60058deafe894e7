use std::sync::Arc;

use tunneload::tls::auto::cluster::storage::{
    Entry, EntryPayload, HardState, Membership, Snapshot, Storage,
};
use tunneload::tls::auto::cluster::{ClusterAction, ClusterRequest, StorageError};

fn blank(index: u64, term: u64) -> Arc<Entry> {
    Arc::new(Entry { index, term, payload: EntryPayload::Blank })
}

fn config(index: u64, term: u64, members: Vec<u64>) -> Arc<Entry> {
    Arc::new(Entry {
        index,
        term,
        payload: EntryPayload::ConfigChange(Arc::new(Membership {
            members,
            members_after_consensus: None,
        })),
    })
}

fn indices(entries: &[Arc<Entry>]) -> Vec<u64> {
    entries.iter().map(|e| e.index).collect()
}

#[test]
fn log_keeps_entries_by_index() {
    let mut storage = Storage::new(7);
    storage.append_entry_to_log(blank(3, 1));
    storage.append_entry_to_log(blank(1, 1));
    storage.replicate_to_log(&[blank(2, 1), blank(5, 2), blank(3, 2)]);

    let all = storage.get_log_entries(0, 100);
    assert_eq!(vec![1, 2, 3, 5], indices(&all));
    assert_eq!(2, all[2].term);
    assert_eq!(vec![2, 3], indices(&storage.get_log_entries(2, 5)));
    assert_eq!(0, storage.get_log_entries(5, 2).len());
}

#[test]
fn log_deletion() {
    let mut storage = Storage::new(1);
    storage.replicate_to_log(&[blank(1, 1), blank(2, 1), blank(3, 1), blank(4, 1)]);
    storage.delete_logs_from(2, Some(4));
    assert_eq!(vec![1, 4], indices(&storage.get_log_entries(0, 10)));
    storage.delete_logs_from(3, Some(1));
    assert_eq!(vec![1, 4], indices(&storage.get_log_entries(0, 10)));
    storage.delete_logs_from(2, None);
    assert_eq!(vec![1], indices(&storage.get_log_entries(0, 10)));
}

#[test]
fn membership_and_initial_state() {
    let mut storage = Storage::new(9);
    assert_eq!(vec![9], storage.get_membership_config().members);

    let first = storage.get_initial_state(42);
    assert_eq!(0, first.last_log_index);
    assert_eq!(0, first.last_applied_log);
    assert_eq!(HardState { current_term: 0, voted_for: None }, first.hard_state);

    storage.append_entry_to_log(config(1, 1, vec![1, 2]));
    storage.append_entry_to_log(blank(2, 3));
    storage.save_hard_state(HardState { current_term: 3, voted_for: Some(2) });
    let second = storage.get_initial_state(2);
    assert_eq!(2, second.last_log_index);
    assert_eq!(3, second.last_log_term);
    assert_eq!(2, second.last_applied_log);
    assert_eq!(Some(2), second.hard_state.voted_for);
    assert_eq!(vec![1, 2], second.membership.members);
}

#[test]
fn log_compaction() {
    let mut storage = Storage::new(1);
    storage.replicate_to_log(&[
        config(1, 1, vec![1, 2]),
        blank(2, 1),
        config(3, 2, vec![1, 2, 3]),
        Arc::new(Entry {
            index: 4,
            term: 2,
            payload: EntryPayload::Normal(ClusterRequest::new(
                "example.com".to_owned(),
                ClusterAction::MissingCert,
            )),
        }),
    ]);

    match storage.do_log_compaction(9, vec![1]) {
        Err(StorageError::InconsistentLogs) => {}
        Ok(_) => panic!("no entry at 9"),
    }
    assert_eq!(4, storage.get_log_entries(0, 10).len());
    assert_eq!(true, storage.get_current_snapshot().is_none());

    let snapshot = storage.do_log_compaction(2, vec![1, 2, 3]).ok().unwrap();
    assert_eq!(2, snapshot.index);
    assert_eq!(1, snapshot.term);
    assert_eq!(vec![1, 2], snapshot.membership.members);
    assert_eq!(vec![1, 2, 3], snapshot.data);

    let left = storage.get_log_entries(0, 10);
    assert_eq!(vec![2, 3, 4], indices(&left));
    match &left[0].payload {
        EntryPayload::SnapshotPointer(id, m) => {
            assert_eq!("", id);
            assert_eq!(vec![1, 2], m.members);
        }
        other => panic!("unexpected payload {:?}", other),
    }
    assert_eq!(2, storage.get_current_snapshot().unwrap().index);
    assert_eq!(vec![1, 2, 3], storage.get_membership_config().members);
}

#[test]
fn snapshot_installation() {
    let mut storage = Storage::new(5);
    storage.replicate_to_log(&[config(1, 1, vec![5, 6]), blank(2, 1), blank(3, 1), blank(4, 2)]);
    let snapshot = Snapshot {
        index: 3,
        term: 1,
        membership: Arc::new(Membership { members: vec![5, 6], members_after_consensus: None }),
        data: vec![7],
    };
    storage.finalize_snapshot_installation(3, 1, Some(2), "snap-1".to_owned(), snapshot);
    let left = storage.get_log_entries(0, 10);
    assert_eq!(vec![3, 4], indices(&left));
    match &left[0].payload {
        EntryPayload::SnapshotPointer(id, m) => {
            assert_eq!("snap-1", id);
            assert_eq!(vec![5, 6], m.members);
        }
        other => panic!("unexpected payload {:?}", other),
    }
    assert_eq!(vec![7], storage.get_current_snapshot().unwrap().data);

    let empty = Snapshot {
        index: 8,
        term: 3,
        membership: Arc::new(Membership { members: vec![5], members_after_consensus: None }),
        data: vec![],
    };
    storage.finalize_snapshot_installation(8, 3, None, "snap-2".to_owned(), empty);
    assert_eq!(vec![8], indices(&storage.get_log_entries(0, 10)));
}
