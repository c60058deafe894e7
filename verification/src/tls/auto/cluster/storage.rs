//! The log of the cluster's consensus, its hard state and its snapshot.
//!
//! The log holds entries by index, one entry per index, each entry at its
//! own index.
use vstd::prelude::*;

use std::collections::BTreeMap;
use std::ops::Bound;
use std::sync::Arc;

use crate::shared::clone_shared;
use crate::tls::auto::cluster::{ClusterRequest, StorageError};

verus! {

broadcast use vstd::laws_cmp::group_laws_cmp, vstd::std_specs::btree::group_btree_axioms;

/// The nodes of the cluster: the voting members, and those that join them
/// once a change of membership is agreed on.
#[derive(Debug)]
pub struct Membership {
    /// The ids of the members.
    pub members: Vec<u64>,
    /// The ids of the members after a change under way, if any.
    pub members_after_consensus: Option<Vec<u64>>,
}

/// What a log entry holds.
#[derive(Debug)]
pub enum EntryPayload {
    /// Nothing.
    Blank,
    /// A request for the state machine.
    Normal(ClusterRequest),
    /// A change of the membership.
    ConfigChange(Arc<Membership>),
    /// The point where a snapshot replaced the entries up to this one: the
    /// snapshot's id and the membership at that point.
    SnapshotPointer(String, Arc<Membership>),
}

/// A log entry.
#[derive(Debug)]
pub struct Entry {
    /// The position in the log.
    pub index: u64,
    /// The term in which the entry was made.
    pub term: u64,
    /// What the entry holds.
    pub payload: EntryPayload,
}

/// The state that a node must not forget: the current term and its vote.
#[derive(Debug, Clone, Copy, PartialEq, Eq)]
pub struct HardState {
    /// The current term.
    pub current_term: u64,
    /// The node voted for in the current term, if any.
    pub voted_for: Option<u64>,
}

/// What a node starts from.
#[derive(Debug)]
pub struct InitialState {
    /// The index of the last log entry, or 0.
    pub last_log_index: u64,
    /// The term of the last log entry, or 0.
    pub last_log_term: u64,
    /// The index of the last entry applied to the state machine.
    pub last_applied_log: u64,
    /// The hard state.
    pub hard_state: HardState,
    /// The membership.
    pub membership: Arc<Membership>,
}

/// A snapshot of the state machine up to an entry.
#[derive(Debug)]
pub struct Snapshot {
    /// The index of the last entry in the snapshot.
    pub index: u64,
    /// The term of that entry.
    pub term: u64,
    /// The membership at that point.
    pub membership: Arc<Membership>,
    /// The serialized state machine.
    pub data: Vec<u8>,
}

/// The log by index, each entry by value.
pub open spec fn log_map(m: Map<u64, Arc<Entry>>) -> Map<u64, Entry> {
    m.map_values(|e: Arc<Entry>| *e)
}

/// Whether each entry of the log sits at its own index.
pub open spec fn keyed_by_index(log: Map<u64, Entry>) -> bool {
    forall|k: u64| #[trigger] log.contains_key(k) ==> log[k].index == k
}

/// The entries whose index is at least `lo` and below `hi`.
pub open spec fn keep_range(log: Map<u64, Entry>, lo: int, hi: int) -> Map<u64, Entry> {
    log.restrict(Set::new(|k: u64| lo <= k < hi))
}

/// The entries whose index is below `lo` or at least `hi`.
pub open spec fn drop_range(log: Map<u64, Entry>, lo: int, hi: int) -> Map<u64, Entry> {
    log.remove_keys(Set::new(|k: u64| lo <= k < hi))
}

/// One more than the largest index.
pub open spec fn index_end() -> int {
    u64::MAX as int + 1
}

/// The log after putting `e` in at its index; an entry there is replaced.
pub open spec fn inserted(log: Map<u64, Entry>, e: Entry) -> Map<u64, Entry> {
    log.insert(e.index, e)
}

/// The log after putting each of `es` in, in order.
pub open spec fn inserted_all(log: Map<u64, Entry>, es: Seq<Entry>) -> Map<u64, Entry>
    decreases es.len(),
{
    if es.len() == 0 {
        log
    } else {
        inserted(inserted_all(log, es.drop_last()), es.last())
    }
}

/// The entries of a list, by value.
pub open spec fn entries_of(s: Seq<Arc<Entry>>) -> Seq<Entry> {
    s.map_values(|e: Arc<Entry>| *e)
}

/// Whether `s` lists the entries of `log` whose index is at least `lo` and
/// below `hi`, by increasing index.
pub open spec fn lists_range(s: Seq<Entry>, log: Map<u64, Entry>, lo: int, hi: int) -> bool {
    &&& forall|i: int, j: int| 0 <= i < j < s.len() ==> s[i].index < s[j].index
    &&& forall|i: int|
        0 <= i < s.len() ==> lo <= #[trigger] s[i].index < hi && log.contains_key(s[i].index) && log[s[i].index]
            == s[i]
    &&& forall|k: u64|
        #[trigger] log.contains_key(k) && lo <= k < hi ==> exists|i: int| 0 <= i < s.len() && s[i].index == k
}

/// The membership that an entry gives: that of a change of membership, or,
/// when `pointers` holds, that of a pointer to a snapshot.
pub open spec fn entry_membership(e: Entry, pointers: bool) -> Option<Arc<Membership>> {
    match e.payload {
        EntryPayload::ConfigChange(m) => Some(m),
        EntryPayload::SnapshotPointer(_, m) => if pointers {
            Some(m)
        } else {
            None
        },
        _ => None,
    }
}

/// Whether `k` is the largest index at or below `through` whose entry gives
/// a membership.
pub open spec fn is_last_membership_key(log: Map<u64, Entry>, through: int, pointers: bool, k: u64) -> bool {
    &&& log.contains_key(k)
    &&& k <= through
    &&& entry_membership(log[k], pointers) is Some
    &&& forall|k2: u64|
        #[trigger] log.contains_key(k2) && k2 <= through && entry_membership(log[k2], pointers) is Some ==> k2
            <= k
}

/// The membership of the last entry at or before `through` that changes
/// the membership (or, when `pointers` holds, that points to a snapshot).
pub open spec fn last_membership(log: Map<u64, Entry>, through: int, pointers: bool) -> Option<Arc<Membership>> {
    if exists|k: u64| is_last_membership_key(log, through, pointers, k) {
        entry_membership(log[choose|k: u64| is_last_membership_key(log, through, pointers, k)], pointers)
    } else {
        None
    }
}

/// Whether `k` is the largest index of the log.
pub open spec fn is_last_key(log: Map<u64, Entry>, k: u64) -> bool {
    &&& log.contains_key(k)
    &&& forall|k2: u64| #[trigger] log.contains_key(k2) ==> k2 <= k
}

/// The entry with the largest index, if the log has any.
pub open spec fn last_entry(log: Map<u64, Entry>) -> Option<Entry> {
    if exists|k: u64| is_last_key(log, k) {
        Some(log[choose|k: u64| is_last_key(log, k)])
    } else {
        None
    }
}

/// The membership of a node that starts alone: itself.
pub open spec fn is_initial_membership(m: Membership, id: u64) -> bool {
    m.members@ == seq![id] && m.members_after_consensus is None
}

/// Whether `e` is the pointer at `index` and `term` to the snapshot `id`,
/// with membership `m`.
pub open spec fn is_snapshot_pointer(e: Entry, index: u64, term: u64, id: Seq<char>, m: Membership) -> bool {
    &&& e.index == index
    &&& e.term == term
    &&& e.payload matches EntryPayload::SnapshotPointer(i, pm) && i@ == id && *pm == m
}

/// The upper bound of a range: `hi`, or past every index.
pub open spec fn upper(hi: Option<u64>) -> int {
    match hi {
        Some(h) => h as int,
        None => index_end(),
    }
}

/// Whether `s` lists the keys and values of `m` whose key is at least `lo`
/// and below `hi`, by increasing key.
pub open spec fn range_listed(m: Map<u64, Arc<Entry>>, lo: int, hi: int, s: Seq<(&u64, &Arc<Entry>)>) -> bool {
    &&& forall|i: int, j: int| 0 <= i < j < s.len() ==> *s[i].0 < *s[j].0
    &&& forall|i: int|
        0 <= i < s.len() ==> lo <= *(#[trigger] s[i]).0 < hi && m.contains_key(*s[i].0) && *s[i].1 == m[*s[i].0]
    &&& forall|k: u64| #[trigger] m.contains_key(k) && lo <= k < hi ==> exists|i: int| 0 <= i < s.len() && *s[i].0 == k
}

/// The entries of the log whose index is at least `lo` and below `hi` (no
/// upper end without `hi`), with their keys.
///
/// Trusted: `BTreeMap::range` visits the keys in the range in increasing
/// order, each with its value.
#[verifier::external_body]
fn range_entries<'a>(m: &'a BTreeMap<u64, Arc<Entry>>, lo: u64, hi: Option<u64>) -> (res: Vec<(&'a u64, &'a Arc<Entry>)>)
    requires
        hi matches Some(h) ==> lo <= h,
    ensures
        range_listed(m@, lo as int, upper(hi), res@),
{
    let end = match hi {
        Some(h) => Bound::Excluded(h),
        None => Bound::Unbounded,
    };
    m.range((Bound::Included(lo), end)).collect()
}

/// Splits the log at `at`: the entries from `at` on are taken out and
/// returned.
///
/// Trusted: `BTreeMap::split_off` leaves the keys below `at` and returns the
/// others with their values.
#[verifier::external_body]
fn split_log(m: &mut BTreeMap<u64, Arc<Entry>>, at: u64) -> (res: BTreeMap<u64, Arc<Entry>>)
    ensures
        final(m)@ == old(m)@.restrict(Set::new(|k: u64| k < at)),
        res@ == old(m)@.restrict(Set::new(|k: u64| k >= at)),
{
    m.split_off(&at)
}

/// The log of a node, with its hard state and its current snapshot.
pub struct Storage {
    id: u64,
    log: BTreeMap<u64, Arc<Entry>>,
    hs: Option<HardState>,
    current_snapshot: Option<Arc<Snapshot>>,
}

/// A membership of the node alone.
fn initial_membership(id: u64) -> (res: Arc<Membership>)
    ensures
        is_initial_membership(*res, id),
{
    let members = vec![id];
    assert(members@ =~= seq![id]);
    Arc::new(Membership { members, members_after_consensus: None })
}

/// The entries of the log whose index is at least `lo` and below `hi`, by
/// increasing index.
fn copy_range(m: &BTreeMap<u64, Arc<Entry>>, lo: u64, hi: Option<u64>) -> (res: Vec<Arc<Entry>>)
    requires
        hi matches Some(h) ==> lo <= h,
        keyed_by_index(log_map(m@)),
    ensures
        lists_range(entries_of(res@), log_map(m@), lo as int, upper(hi)),
{
    let found = range_entries(m, lo, hi);
    let ghost log = log_map(m@);
    let mut out: Vec<Arc<Entry>> = Vec::new();
    let mut i: usize = 0;
    while i < found.len()
        invariant
            0 <= i <= found@.len(),
            range_listed(m@, lo as int, upper(hi), found@),
            keyed_by_index(log),
            log == log_map(m@),
            out@.len() == i,
            forall|j: int| 0 <= j < i ==> #[trigger] out@[j] == *found@[j].1,
        decreases found@.len() - i,
    {
        out.push(clone_shared(found[i].1));
        i = i + 1;
    }
    proof {
        let t = entries_of(out@);
        assert forall|j: int| 0 <= j < t.len() implies #[trigger] t[j] == log[*found@[j].0] && t[j].index
            == *found@[j].0 by {
            let k = *found@[j].0;
            assert(t[j] == *out@[j]);
            assert(m@.contains_key(k));
            assert(log.contains_key(k));
            assert(log[k] == *m@[k]);
            assert(*out@[j] == *found@[j].1);
            assert(log[k].index == k);
        }
        assert forall|a: int, b: int| 0 <= a < b < t.len() implies t[a].index < t[b].index by {
            assert(t[a].index == *found@[a].0);
            assert(t[b].index == *found@[b].0);
        }
        assert forall|a: int| 0 <= a < t.len() implies lo <= #[trigger] t[a].index < upper(hi)
            && log.contains_key(t[a].index) && log[t[a].index] == t[a] by {
            assert(t[a].index == *found@[a].0);
        }
        assert forall|k: u64| #[trigger] log.contains_key(k) && lo <= k < upper(hi) implies exists|a: int|
            0 <= a < t.len() && t[a].index == k by {
            assert(m@.contains_key(k));
            let a = choose|a: int| 0 <= a < found@.len() && *found@[a].0 == k;
            assert(t[a].index == *found@[a].0);
        }
    }
    out
}

/// A list of the entries of a range: the last one has the largest index
/// of the range.
proof fn lemma_listed_last(s: Seq<Entry>, log: Map<u64, Entry>, lo: int, hi: int)
    requires
        lists_range(s, log, lo, hi),
        s.len() > 0,
    ensures
        forall|k: u64| #[trigger] log.contains_key(k) && lo <= k < hi ==> k <= s.last().index,
{
    assert forall|k: u64| #[trigger] log.contains_key(k) && lo <= k < hi implies k <= s.last().index by {
        let i = choose|i: int| 0 <= i < s.len() && s[i].index == k;
        if i < s.len() - 1 {
            assert(s[i].index < s[s.len() - 1].index);
        }
    }
}

/// The membership of the last entry at or before `through` that changes
/// the membership (or, when `pointers` holds, that points to a snapshot).
fn find_membership(m: &BTreeMap<u64, Arc<Entry>>, through: u64, pointers: bool) -> (res: Option<Arc<Membership>>)
    requires
        keyed_by_index(log_map(m@)),
    ensures
        res == last_membership(log_map(m@), through as int, pointers),
{
    let all = copy_range(m, 0, None);
    let ghost log = log_map(m@);
    let ghost t = entries_of(all@);
    let mut i: usize = all.len();
    while i > 0
        invariant
            0 <= i <= all@.len(),
            t == entries_of(all@),
            log == log_map(m@),
            lists_range(t, log, 0, index_end()),
            forall|j: int| i <= j < t.len() ==> #[trigger] t[j].index > through || entry_membership(t[j], pointers) is None,
        decreases i,
    {
        let e = &all[i - 1];
        assert(t[i - 1] == **e);
        if e.index <= through {
            let found = match &e.payload {
                EntryPayload::ConfigChange(mm) => Some(clone_shared(mm)),
                EntryPayload::SnapshotPointer(_, mm) => if pointers {
                    Some(clone_shared(mm))
                } else {
                    None
                },
                _ => None,
            };
            if found.is_some() {
                proof {
                    let k = e.index;
                    assert(log.contains_key(k) && log[k] == t[i - 1]);
                    assert forall|k2: u64|
                        #[trigger] log.contains_key(k2) && k2 <= through && entry_membership(log[k2], pointers) is Some
                            implies k2 <= k by {
                        let p = choose|p: int| 0 <= p < t.len() && t[p].index == k2;
                        assert(log[t[p].index] == t[p]);
                        if p > i - 1 {
                            assert(t[i - 1].index < t[p].index);
                        } else if p < i - 1 {
                            assert(t[p].index < t[i - 1].index);
                        }
                    }
                    assert(is_last_membership_key(log, through as int, pointers, k));
                    let c = choose|c: u64| is_last_membership_key(log, through as int, pointers, c);
                    assert(c <= k);
                    assert(k <= c);
                }
                return found;
            }
        }
        i = i - 1;
    }
    proof {
        assert forall|k: u64| !is_last_membership_key(log, through as int, pointers, k) by {
            if is_last_membership_key(log, through as int, pointers, k) {
                let p = choose|p: int| 0 <= p < t.len() && t[p].index == k;
                assert(log[t[p].index] == t[p]);
            }
        }
    }
    None
}

impl Storage {
    /// The id of the node.
    pub closed spec fn spec_id(&self) -> u64 {
        self.id
    }

    /// The entries of the log, by index.
    pub closed spec fn spec_log(&self) -> Map<u64, Entry> {
        log_map(self.log@)
    }

    /// The hard state, once one was saved or made up.
    pub closed spec fn spec_hard_state(&self) -> Option<HardState> {
        self.hs
    }

    /// The current snapshot, if any.
    pub closed spec fn spec_snapshot(&self) -> Option<Arc<Snapshot>> {
        self.current_snapshot
    }

    /// Whether each entry of the log sits at its own index.
    pub open spec fn wf(&self) -> bool {
        keyed_by_index(self.spec_log())
    }

    /// Creates the storage of the node `id` with an empty log.
    pub fn new(id: u64) -> (res: Self)
        ensures
            res.wf(),
            res.spec_id() == id,
            res.spec_log() == Map::<u64, Entry>::empty(),
            res.spec_hard_state() is None,
            res.spec_snapshot() is None,
    {
        let res = Self { id, log: BTreeMap::new(), hs: None, current_snapshot: None };
        assert(res.spec_log() =~= Map::<u64, Entry>::empty());
        res
    }

    /// The membership of the last entry that changes it or points to a
    /// snapshot; the node alone when there is none.
    pub fn get_membership_config(&self) -> (res: Arc<Membership>)
        requires
            self.wf(),
        ensures
            match last_membership(self.spec_log(), u64::MAX as int, true) {
                Some(m) => *res == *m,
                None => is_initial_membership(*res, self.spec_id()),
            },
    {
        match find_membership(&self.log, u64::MAX, true) {
            Some(m) => m,
            None => initial_membership(self.id),
        }
    }

    /// What the node starts from. Without a hard state, the node starts
    /// afresh, alone and at term 0, and that hard state is kept; otherwise
    /// it starts from its last entry, `last_applied_log`, its hard state
    /// and its membership.
    pub fn get_initial_state(&mut self, last_applied_log: u64) -> (res: InitialState)
        requires
            old(self).wf(),
        ensures
            final(self).wf(),
            final(self).spec_log() == old(self).spec_log(),
            final(self).spec_id() == old(self).spec_id(),
            final(self).spec_snapshot() == old(self).spec_snapshot(),
            match old(self).spec_hard_state() {
                None => {
                    &&& res.last_log_index == 0
                    &&& res.last_log_term == 0
                    &&& res.last_applied_log == 0
                    &&& res.hard_state == HardState { current_term: 0, voted_for: None }
                    &&& is_initial_membership(*res.membership, old(self).spec_id())
                    &&& final(self).spec_hard_state() == Some(res.hard_state)
                },
                Some(h) => {
                    &&& res.last_log_index == match last_entry(old(self).spec_log()) {
                        Some(e) => e.index,
                        None => 0,
                    }
                    &&& res.last_log_term == match last_entry(old(self).spec_log()) {
                        Some(e) => e.term,
                        None => 0,
                    }
                    &&& res.last_applied_log == last_applied_log
                    &&& res.hard_state == h
                    &&& match last_membership(old(self).spec_log(), u64::MAX as int, true) {
                        Some(m) => *res.membership == *m,
                        None => is_initial_membership(*res.membership, old(self).spec_id()),
                    }
                    &&& final(self).spec_hard_state() == Some(h)
                },
            },
    {
        match self.hs {
            Some(h) => {
                let membership = self.get_membership_config();
                let all = copy_range(&self.log, 0, None);
                let ghost log = self.spec_log();
                let ghost t = entries_of(all@);
                let n = all.len();
                let (last_log_index, last_log_term) = if n == 0 {
                    proof {
                        assert forall|k: u64| !is_last_key(log, k) by {
                            if is_last_key(log, k) {
                                let p = choose|p: int| 0 <= p < t.len() && t[p].index == k;
                            }
                        }
                    }
                    (0, 0)
                } else {
                    proof {
                        lemma_listed_last(t, log, 0, index_end());
                        let k = t.last().index;
                        assert(t.last() == t[n - 1]);
                        assert(is_last_key(log, k));
                        let c = choose|c: u64| is_last_key(log, c);
                        assert(c <= k && k <= c);
                    }
                    (all[n - 1].index, all[n - 1].term)
                };
                InitialState { last_log_index, last_log_term, last_applied_log, hard_state: h, membership }
            },
            None => {
                let hard_state = HardState { current_term: 0, voted_for: None };
                self.hs = Some(hard_state);
                InitialState {
                    last_log_index: 0,
                    last_log_term: 0,
                    last_applied_log: 0,
                    hard_state,
                    membership: initial_membership(self.id),
                }
            },
        }
    }

    /// Keeps the hard state.
    pub fn save_hard_state(&mut self, hs: HardState)
        ensures
            final(self).spec_hard_state() == Some(hs),
            final(self).spec_log() == old(self).spec_log(),
            final(self).spec_id() == old(self).spec_id(),
            final(self).spec_snapshot() == old(self).spec_snapshot(),
    {
        self.hs = Some(hs);
    }

    /// The entries from index `start` up to, not including, `stop`, by
    /// increasing index; none when `start > stop`.
    pub fn get_log_entries(&self, start: u64, stop: u64) -> (res: Vec<Arc<Entry>>)
        requires
            self.wf(),
        ensures
            start > stop ==> res@.len() == 0,
            start <= stop ==> lists_range(entries_of(res@), self.spec_log(), start as int, stop as int),
    {
        if start > stop {
            return Vec::new();
        }
        copy_range(&self.log, start, Some(stop))
    }

    /// Deletes the entries from index `start` up to, not including, `stop`,
    /// or all from `start` on when there is no `stop`; nothing when
    /// `start > stop`.
    pub fn delete_logs_from(&mut self, start: u64, stop: Option<u64>)
        requires
            old(self).wf(),
        ensures
            final(self).wf(),
            final(self).spec_log() == match stop {
                Some(s) => if start > s {
                    old(self).spec_log()
                } else {
                    drop_range(old(self).spec_log(), start as int, s as int)
                },
                None => keep_range(old(self).spec_log(), 0, start as int),
            },
            final(self).spec_id() == old(self).spec_id(),
            final(self).spec_hard_state() == old(self).spec_hard_state(),
            final(self).spec_snapshot() == old(self).spec_snapshot(),
    {
        match stop {
            Some(s) => {
                if start > s {
                    return;
                }
                let mut key: u64 = start;
                while key < s
                    invariant
                        start <= key <= s,
                        self.spec_id() == old(self).spec_id(),
                        self.spec_hard_state() == old(self).spec_hard_state(),
                        self.spec_snapshot() == old(self).spec_snapshot(),
                        self.log@ == old(self).log@.remove_keys(Set::new(|k: u64| start <= k < key)),
                    decreases s - key,
                {
                    self.log.remove(&key);
                    assert(self.log@ =~= old(self).log@.remove_keys(Set::new(|k: u64| start <= k < key + 1)));
                    key = key + 1;
                }
                assert(self.spec_log() =~= drop_range(old(self).spec_log(), start as int, s as int));
            },
            None => {
                let _rest = split_log(&mut self.log, start);
                assert(self.spec_log() =~= keep_range(old(self).spec_log(), 0, start as int));
            },
        }
    }

    /// Puts the entry into the log at its index.
    pub fn append_entry_to_log(&mut self, entry: Arc<Entry>)
        requires
            old(self).wf(),
        ensures
            final(self).wf(),
            final(self).spec_log() == inserted(old(self).spec_log(), *entry),
            final(self).spec_id() == old(self).spec_id(),
            final(self).spec_hard_state() == old(self).spec_hard_state(),
            final(self).spec_snapshot() == old(self).spec_snapshot(),
    {
        let ghost e: Arc<Entry> = entry;
        self.log.insert(entry.index, entry);
        assert(self.spec_log() =~= inserted(old(self).spec_log(), *e));
    }

    /// Puts each of the entries into the log at its index, in order.
    pub fn replicate_to_log(&mut self, entries: &[Arc<Entry>])
        requires
            old(self).wf(),
        ensures
            final(self).wf(),
            final(self).spec_log() == inserted_all(old(self).spec_log(), entries_of(entries@)),
            final(self).spec_id() == old(self).spec_id(),
            final(self).spec_hard_state() == old(self).spec_hard_state(),
            final(self).spec_snapshot() == old(self).spec_snapshot(),
    {
        let mut i: usize = 0;
        while i < entries.len()
            invariant
                0 <= i <= entries@.len(),
                self.wf(),
                self.spec_log() == inserted_all(old(self).spec_log(), entries_of(entries@.take(i as int))),
                self.spec_id() == old(self).spec_id(),
                self.spec_hard_state() == old(self).spec_hard_state(),
                self.spec_snapshot() == old(self).spec_snapshot(),
            decreases entries@.len() - i,
        {
            let e = clone_shared(&entries[i]);
            proof {
                let t = entries_of(entries@.take(i + 1));
                assert(t.drop_last() =~= entries_of(entries@.take(i as int)));
                assert(t.last() == *e);
            }
            self.append_entry_to_log(e);
            i = i + 1;
        }
        assert(entries@.take(entries@.len() as int) =~= entries@);
    }

    /// Replaces the entries up to the last applied one by a snapshot: the
    /// snapshot holds `data`, the index and term of that entry, and the
    /// membership of the last change at or before it (the node alone when
    /// there is none); the log keeps the entries from that index on, the
    /// entry at that index becoming a pointer to the snapshot. Without an
    /// entry at that index the log is inconsistent and nothing changes.
    pub fn do_log_compaction(&mut self, last_applied_log: u64, data: Vec<u8>) -> (res: Result<
        Arc<Snapshot>,
        StorageError,
    >)
        requires
            old(self).wf(),
        ensures
            final(self).wf(),
            final(self).spec_id() == old(self).spec_id(),
            final(self).spec_hard_state() == old(self).spec_hard_state(),
            !old(self).spec_log().contains_key(last_applied_log) ==> res is Err && final(self).spec_log()
                == old(self).spec_log() && final(self).spec_snapshot() == old(self).spec_snapshot(),
            old(self).spec_log().contains_key(last_applied_log) ==> (res matches Ok(snap) && {
                &&& snap.index == last_applied_log
                &&& snap.term == old(self).spec_log()[last_applied_log].term
                &&& snap.data == data
                &&& match last_membership(old(self).spec_log(), last_applied_log as int, false) {
                    Some(m) => *snap.membership == *m,
                    None => is_initial_membership(*snap.membership, old(self).spec_id()),
                }
                &&& final(self).spec_snapshot() == Some(snap)
                &&& exists|p: Entry|
                    is_snapshot_pointer(
                        p,
                        last_applied_log,
                        old(self).spec_log()[last_applied_log].term,
                        Seq::empty(),
                        *snap.membership,
                    ) && final(self).spec_log() == inserted(
                        keep_range(old(self).spec_log(), last_applied_log as int, index_end()),
                        p,
                    )
            }),
    {
        let membership = match find_membership(&self.log, last_applied_log, false) {
            Some(m) => m,
            None => initial_membership(self.id),
        };
        let term = match self.log.get(&last_applied_log) {
            Some(e) => e.term,
            None => {
                return Err(StorageError::InconsistentLogs);
            },
        };
        let kept = split_log(&mut self.log, last_applied_log);
        self.log = kept;
        let pointer = Arc::new(
            Entry {
                index: last_applied_log,
                term,
                payload: EntryPayload::SnapshotPointer(String::new(), clone_shared(&membership)),
            },
        );
        let ghost pa: Arc<Entry> = pointer;
        self.log.insert(last_applied_log, pointer);
        assert(self.spec_log() =~= inserted(
            keep_range(old(self).spec_log(), last_applied_log as int, index_end()),
            *pa,
        ));
        let snapshot = Arc::new(Snapshot { index: last_applied_log, term, membership, data });
        assert(is_snapshot_pointer(*pa, last_applied_log, term, Seq::empty(), *snapshot.membership));
        self.current_snapshot = Some(clone_shared(&snapshot));
        Ok(snapshot)
    }

    /// The current snapshot, if any.
    pub fn get_current_snapshot(&self) -> (res: Option<Arc<Snapshot>>)
        ensures
            match (res, self.spec_snapshot()) {
                (Some(a), Some(b)) => *a == *b,
                (None, None) => true,
                _ => false,
            },
    {
        match &self.current_snapshot {
            Some(s) => Some(clone_shared(s)),
            None => None,
        }
    }

    /// Installs a snapshot received from the leader: the log keeps the
    /// entries after `delete_through` (none without it), and gets a pointer
    /// to the snapshot at `index` with the membership of the last change at
    /// or before `index` (the node alone when there is none); the snapshot
    /// becomes the current one. The state machine is replaced from the
    /// snapshot's data by the caller.
    pub fn finalize_snapshot_installation(
        &mut self,
        index: u64,
        term: u64,
        delete_through: Option<u64>,
        id: String,
        snapshot: Snapshot,
    )
        requires
            old(self).wf(),
            match delete_through {
                Some(t) => t < u64::MAX,
                None => true,
            },
        ensures
            final(self).wf(),
            final(self).spec_id() == old(self).spec_id(),
            final(self).spec_hard_state() == old(self).spec_hard_state(),
            final(self).spec_snapshot() matches Some(s) && *s == snapshot,
            exists|p: Entry|
                {
                    &&& p.index == index
                    &&& p.term == term
                    &&& p.payload matches EntryPayload::SnapshotPointer(i, m) && i@ == id@ && match last_membership(
                        old(self).spec_log(),
                        index as int,
                        false,
                    ) {
                        Some(l) => *m == *l,
                        None => is_initial_membership(*m, old(self).spec_id()),
                    }
                    &&& final(self).spec_log() == inserted(
                        match delete_through {
                            Some(t) => keep_range(old(self).spec_log(), t + 1, index_end()),
                            None => Map::<u64, Entry>::empty(),
                        },
                        p,
                    )
                },
    {
        let membership = match find_membership(&self.log, index, false) {
            Some(m) => m,
            None => initial_membership(self.id),
        };
        match delete_through {
            Some(t) => {
                let kept = split_log(&mut self.log, t + 1);
                self.log = kept;
            },
            None => {
                self.log.clear();
            },
        }
        let ghost base = self.spec_log();
        assert(base =~= match delete_through {
            Some(t) => keep_range(old(self).spec_log(), t + 1, index_end()),
            None => Map::<u64, Entry>::empty(),
        });
        let pointer = Arc::new(
            Entry { index, term, payload: EntryPayload::SnapshotPointer(id, clone_shared(&membership)) },
        );
        let ghost pa: Arc<Entry> = pointer;
        self.log.insert(index, pointer);
        assert(self.spec_log() =~= inserted(base, *pa));
        self.current_snapshot = Some(Arc::new(snapshot));
    }
}

/// Reading the entry at index `k` from the entries in a range gives the
/// log's entry when `k` is in the range, and nothing otherwise.
pub proof fn lemma_range_read(log: Map<u64, Entry>, lo: int, hi: int, k: u64)
    ensures
        keep_range(log, lo, hi).contains_key(k) == (lo <= k < hi && log.contains_key(k)),
        keep_range(log, lo, hi).contains_key(k) ==> keep_range(log, lo, hi)[k] == log[k],
{
}

/// After deleting a range, the entries in it are gone and the others stay.
pub proof fn lemma_delete_read(log: Map<u64, Entry>, lo: int, hi: int, k: u64)
    ensures
        drop_range(log, lo, hi).contains_key(k) == (!(lo <= k < hi) && log.contains_key(k)),
        drop_range(log, lo, hi).contains_key(k) ==> drop_range(log, lo, hi)[k] == log[k],
{
}

/// A log read after putting an entry in gives back that entry at its
/// index, and what it gave before at every other index.
pub proof fn lemma_insert_read(log: Map<u64, Entry>, e: Entry, k: u64)
    ensures
        inserted(log, e).contains_key(k) == (k == e.index || log.contains_key(k)),
        k == e.index ==> inserted(log, e)[k] == e,
        k != e.index && log.contains_key(k) ==> inserted(log, e)[k] == log[k],
{
}

/// Putting an entry into a log whose entries sit at their own index keeps
/// them so.
pub proof fn lemma_insert_keeps_order(log: Map<u64, Entry>, e: Entry)
    requires
        keyed_by_index(log),
    ensures
        keyed_by_index(inserted(log, e)),
{
}

} // verus!
