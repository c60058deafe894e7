//! The ACME challenges that the cluster knows of, by domain.
use vstd::prelude::*;

use crate::text::str_eq;

verus! {

/// Where the ACME challenge of a domain stands.
#[derive(Debug)]
pub enum ChallengeState {
    /// A certificate has been requested.
    Pending,
    /// The data that proves the ownership of the domain: pairs of token and
    /// key.
    Data(Vec<(String, String)>),
    /// The challenge is done.
    Finished,
}

/// `ChallengeState` with each text by its characters.
pub enum SpecChallengeState {
    Pending,
    Data(Seq<(Seq<char>, Seq<char>)>),
    Finished,
}

/// The pairs of texts, each by its characters.
pub open spec fn pair_views(v: Seq<(String, String)>) -> Seq<(Seq<char>, Seq<char>)> {
    v.map_values(|p: (String, String)| (p.0@, p.1@))
}

impl View for ChallengeState {
    type V = SpecChallengeState;

    open spec fn view(&self) -> SpecChallengeState {
        match self {
            ChallengeState::Pending => SpecChallengeState::Pending,
            ChallengeState::Data(v) => SpecChallengeState::Data(pair_views(v@)),
            ChallengeState::Finished => SpecChallengeState::Finished,
        }
    }
}

/// Copies pairs of texts.
pub fn clone_pairs(v: &Vec<(String, String)>) -> (res: Vec<(String, String)>)
    ensures
        pair_views(res@) == pair_views(v@),
{
    let mut out: Vec<(String, String)> = Vec::new();
    let mut i: usize = 0;
    while i < v.len()
        invariant
            0 <= i <= v@.len(),
            pair_views(out@) == pair_views(v@.take(i as int)),
        decreases v@.len() - i,
    {
        let (a, b) = &v[i];
        let ghost before = out@;
        out.push((a.clone(), b.clone()));
        proof {
            assert(pair_views(out@) =~= pair_views(before).push((a@, b@)));
            assert(v@.take(i + 1) =~= v@.take(i as int).push(v@[i as int]));
            assert(pair_views(v@.take(i + 1)) =~= pair_views(v@.take(i as int)).push((a@, b@)));
        }
        i = i + 1;
    }
    assert(v@.take(v@.len() as int) =~= v@);
    out
}

impl Clone for ChallengeState {
    fn clone(&self) -> (res: Self)
        ensures
            res@ == self@,
    {
        match self {
            ChallengeState::Pending => ChallengeState::Pending,
            ChallengeState::Data(v) => ChallengeState::Data(clone_pairs(v)),
            ChallengeState::Finished => ChallengeState::Finished,
        }
    }
}

/// Whether entry `i` of `s` is for the domain `k`.
pub open spec fn has_key_at(s: Seq<(String, ChallengeState)>, k: Seq<char>, i: int) -> bool {
    0 <= i < s.len() && s[i].0@ == k
}

/// The map that a list of entries with distinct domains stands for.
pub open spec fn entries_map(s: Seq<(String, ChallengeState)>) -> Map<Seq<char>, SpecChallengeState> {
    Map::new(
        |k: Seq<char>| exists|i: int| has_key_at(s, k, i),
        |k: Seq<char>| s[choose|i: int| has_key_at(s, k, i)].1@,
    )
}

/// Whether no two entries are for the same domain.
pub open spec fn distinct_keys(s: Seq<(String, ChallengeState)>) -> bool {
    forall|i: int, j: int| 0 <= i < s.len() && 0 <= j < s.len() && i != j ==> s[i].0@ != s[j].0@
}

/// The map built by inserting the entries in order, a later entry for a
/// domain replacing an earlier one.
pub open spec fn collected(s: Seq<(String, ChallengeState)>) -> Map<Seq<char>, SpecChallengeState>
    decreases s.len(),
{
    if s.len() == 0 {
        Map::empty()
    } else {
        collected(s.drop_last()).insert(s.last().0@, s.last().1@)
    }
}

/// The challenges of the cluster, by domain: a list with one entry per
/// domain (vstd gives `HashMap` contracts only for keys it knows to hash
/// and compare soundly, which `String` is not among).
pub struct ChallengeList {
    entries: Vec<(String, ChallengeState)>,
}

impl View for ChallengeList {
    type V = Map<Seq<char>, SpecChallengeState>;

    closed spec fn view(&self) -> Map<Seq<char>, SpecChallengeState> {
        entries_map(self.entries@)
    }
}

/// With distinct domains, the map gives each entry's state for its domain.
proof fn lemma_entry_value(s: Seq<(String, ChallengeState)>, i: int)
    requires
        distinct_keys(s),
        0 <= i < s.len(),
    ensures
        entries_map(s).contains_key(s[i].0@),
        entries_map(s)[s[i].0@] == s[i].1@,
{
    assert(has_key_at(s, s[i].0@, i));
}

/// The position of the entry for `k`.
fn key_position(entries: &Vec<(String, ChallengeState)>, k: &str) -> (res: Option<usize>)
    ensures
        match res {
            Some(i) => has_key_at(entries@, k@, i as int),
            None => forall|i: int| !has_key_at(entries@, k@, i),
        },
{
    let mut i: usize = 0;
    while i < entries.len()
        invariant
            0 <= i <= entries@.len(),
            forall|j: int| 0 <= j < i ==> !has_key_at(entries@, k@, j),
        decreases entries@.len() - i,
    {
        if str_eq(entries[i].0.as_str(), k) {
            return Some(i);
        }
        i = i + 1;
    }
    None
}

/// A list of entries with distinct domains stands for the map `m` when
/// they have the same domains and each entry's state is `m`'s.
proof fn lemma_map_of(t: Seq<(String, ChallengeState)>, m: Map<Seq<char>, SpecChallengeState>)
    requires
        distinct_keys(t),
        forall|k: Seq<char>| #[trigger] m.contains_key(k) <==> exists|i: int| has_key_at(t, k, i),
        forall|i: int| 0 <= i < t.len() ==> m[t[i].0@] == #[trigger] t[i].1@,
    ensures
        entries_map(t) == m,
{
    assert forall|k: Seq<char>| #[trigger] entries_map(t).contains_key(k) implies entries_map(t)[k] == m[k] by {
        let i = choose|i: int| has_key_at(t, k, i);
        lemma_entry_value(t, i);
    }
    assert(entries_map(t) =~= m);
}

/// The map gives each entry's state for its domain.
proof fn lemma_all_entry_values(s: Seq<(String, ChallengeState)>)
    requires
        distinct_keys(s),
    ensures
        forall|j: int|
            0 <= j < s.len() ==> entries_map(s).contains_key(#[trigger] s[j].0@) && entries_map(s)[s[j].0@]
                == s[j].1@,
{
    assert forall|j: int| 0 <= j < s.len() implies entries_map(s).contains_key(#[trigger] s[j].0@)
        && entries_map(s)[s[j].0@] == s[j].1@ by {
        lemma_entry_value(s, j);
    }
}

impl ChallengeList {
    /// Whether no two entries are for the same domain.
    pub closed spec fn wf(&self) -> bool {
        distinct_keys(self.entries@)
    }

    /// Creates an empty list.
    pub fn new() -> (res: Self)
        ensures
            res.wf(),
            res@ == Map::<Seq<char>, SpecChallengeState>::empty(),
    {
        let res = Self { entries: Vec::new() };
        assert(res@ =~= Map::<Seq<char>, SpecChallengeState>::empty());
        res
    }

    /// Sets the state of the domain's challenge.
    pub fn update_state(&mut self, domain: String, n_state: ChallengeState)
        requires
            old(self).wf(),
        ensures
            final(self).wf(),
            final(self)@ == old(self)@.insert(domain@, n_state@),
    {
        let ghost s = self.entries@;
        let ghost k = domain@;
        let ghost v = n_state@;
        proof {
            lemma_all_entry_values(s);
        }
        match key_position(&self.entries, domain.as_str()) {
            Some(i) => {
                self.entries.set(i, (domain, n_state));
                let ghost t = self.entries@;
                proof {
                    let m = entries_map(s).insert(k, v);
                    assert forall|a: int, b: int|
                        0 <= a < t.len() && 0 <= b < t.len() && a != b implies t[a].0@ != t[b].0@ by {
                        assert(t[a].0@ == s[a].0@);
                        assert(t[b].0@ == s[b].0@);
                    }
                    assert forall|k2: Seq<char>| #[trigger] m.contains_key(k2) <==> exists|j: int|
                        has_key_at(t, k2, j) by {
                        if m.contains_key(k2) {
                            if k2 == k {
                                assert(has_key_at(t, k2, i as int));
                            } else {
                                let j = choose|j: int| has_key_at(s, k2, j);
                                assert(has_key_at(t, k2, j));
                            }
                        }
                        if exists|j: int| has_key_at(t, k2, j) {
                            let j = choose|j: int| has_key_at(t, k2, j);
                            assert(has_key_at(s, k2, j));
                        }
                    }
                    assert forall|j: int| 0 <= j < t.len() implies m[t[j].0@] == #[trigger] t[j].1@ by {
                        if j != i {
                            assert(s[j].0@ != k);
                        }
                    }
                    lemma_map_of(t, m);
                }
            },
            None => {
                self.entries.push((domain, n_state));
                let ghost t = self.entries@;
                proof {
                    let m = entries_map(s).insert(k, v);
                    assert forall|a: int, b: int|
                        0 <= a < t.len() && 0 <= b < t.len() && a != b implies t[a].0@ != t[b].0@ by {
                        if a == s.len() {
                            assert(!has_key_at(s, k, b));
                        } else if b == s.len() {
                            assert(!has_key_at(s, k, a));
                        }
                    }
                    assert forall|k2: Seq<char>| #[trigger] m.contains_key(k2) <==> exists|j: int|
                        has_key_at(t, k2, j) by {
                        if m.contains_key(k2) {
                            if k2 == k {
                                assert(has_key_at(t, k2, s.len() as int));
                            } else {
                                let j = choose|j: int| has_key_at(s, k2, j);
                                assert(has_key_at(t, k2, j));
                            }
                        }
                        if exists|j: int| has_key_at(t, k2, j) {
                            let j = choose|j: int| has_key_at(t, k2, j);
                            if j < s.len() {
                                assert(has_key_at(s, k2, j));
                            }
                        }
                    }
                    assert forall|j: int| 0 <= j < t.len() implies m[t[j].0@] == #[trigger] t[j].1@ by {
                        if j < s.len() {
                            assert(!has_key_at(s, k, j));
                        }
                    }
                    lemma_map_of(t, m);
                }
            },
        }
    }

    /// Forgets the domain's challenge.
    pub fn remove_state(&mut self, domain: &str)
        requires
            old(self).wf(),
        ensures
            final(self).wf(),
            final(self)@ == old(self)@.remove(domain@),
    {
        let ghost s = self.entries@;
        let ghost k = domain@;
        proof {
            lemma_all_entry_values(s);
        }
        match key_position(&self.entries, domain) {
            Some(i) => {
                self.entries.remove(i);
                let ghost t = self.entries@;
                proof {
                    let m = entries_map(s).remove(k);
                    assert(t =~= s.remove(i as int));
                    assert forall|a: int, b: int|
                        0 <= a < t.len() && 0 <= b < t.len() && a != b implies t[a].0@ != t[b].0@ by {
                        let a1 = if a < i { a } else { a + 1 };
                        let b1 = if b < i { b } else { b + 1 };
                        assert(t[a] == s[a1]);
                        assert(t[b] == s[b1]);
                    }
                    assert forall|k2: Seq<char>| #[trigger] m.contains_key(k2) <==> exists|j: int|
                        has_key_at(t, k2, j) by {
                        if m.contains_key(k2) {
                            let j = choose|j: int| has_key_at(s, k2, j);
                            assert(j != i);
                            let j1 = if j < i { j } else { j - 1 };
                            assert(t[j1] == s[j]);
                            assert(has_key_at(t, k2, j1));
                        }
                        if exists|j: int| has_key_at(t, k2, j) {
                            let j = choose|j: int| has_key_at(t, k2, j);
                            let j1 = if j < i { j } else { j + 1 };
                            assert(t[j] == s[j1]);
                            assert(has_key_at(s, k2, j1));
                            assert(j1 != i);
                        }
                    }
                    assert forall|j: int| 0 <= j < t.len() implies m[t[j].0@] == #[trigger] t[j].1@ by {
                        let j1 = if j < i { j } else { j + 1 };
                        assert(t[j] == s[j1]);
                        assert(j1 != i);
                    }
                    lemma_map_of(t, m);
                }
            },
            None => {
                assert(entries_map(s) =~= entries_map(s).remove(k));
            },
        }
    }

    /// Returns the state of the domain's challenge.
    pub fn get_state(&self, domain: &str) -> (res: Option<ChallengeState>)
        requires
            self.wf(),
        ensures
            match res {
                Some(state) => self@.contains_key(domain@) && state@ == self@[domain@],
                None => !self@.contains_key(domain@),
            },
    {
        match key_position(&self.entries, domain) {
            Some(i) => {
                proof {
                    lemma_entry_value(self.entries@, i as int);
                }
                Some(self.entries[i].1.clone())
            },
            None => None,
        }
    }

    /// Returns the state of the domain's challenge.
    pub fn get_challenge(&self, domain: &str) -> (res: Option<ChallengeState>)
        requires
            self.wf(),
        ensures
            match res {
                Some(state) => self@.contains_key(domain@) && state@ == self@[domain@],
                None => !self@.contains_key(domain@),
            },
    {
        self.get_state(domain)
    }

    /// Copies out the entries, one for each domain.
    pub fn clone_map(&self) -> (res: Vec<(String, ChallengeState)>)
        requires
            self.wf(),
        ensures
            distinct_keys(res@),
            entries_map(res@) == self@,
    {
        let mut out: Vec<(String, ChallengeState)> = Vec::new();
        let mut i: usize = 0;
        while i < self.entries.len()
            invariant
                0 <= i <= self.entries@.len(),
                out@.len() == i,
                forall|j: int| 0 <= j < i ==> #[trigger] out@[j].0@ == self.entries@[j].0@
                    && out@[j].1@ == self.entries@[j].1@,
            decreases self.entries@.len() - i,
        {
            let (d, st) = &self.entries[i];
            out.push((d.clone(), st.clone()));
            i = i + 1;
        }
        proof {
            let s = self.entries@;
            let t = out@;
            lemma_all_entry_values(s);
            assert forall|a: int, b: int|
                0 <= a < t.len() && 0 <= b < t.len() && a != b implies t[a].0@ != t[b].0@ by {
                assert(t[a].0@ == s[a].0@);
                assert(t[b].0@ == s[b].0@);
            }
            assert forall|k2: Seq<char>| #[trigger] entries_map(s).contains_key(k2) <==> exists|j: int|
                has_key_at(t, k2, j) by {
                if entries_map(s).contains_key(k2) {
                    let j = choose|j: int| has_key_at(s, k2, j);
                    assert(has_key_at(t, k2, j));
                }
                if exists|j: int| has_key_at(t, k2, j) {
                    let j = choose|j: int| has_key_at(t, k2, j);
                    assert(has_key_at(s, k2, j));
                }
            }
            assert forall|j: int| 0 <= j < t.len() implies entries_map(s)[t[j].0@] == #[trigger] t[j].1@ by {
                assert(t[j].0@ == s[j].0@);
            }
            lemma_map_of(t, entries_map(s));
        }
        out
    }

    /// Replaces all entries by the given ones; of several entries for one
    /// domain the last counts.
    pub fn set_map(&mut self, n_map: Vec<(String, ChallengeState)>)
        ensures
            final(self).wf(),
            final(self)@ == collected(n_map@),
    {
        let mut fresh = ChallengeList::new();
        let mut i: usize = 0;
        while i < n_map.len()
            invariant
                0 <= i <= n_map@.len(),
                fresh.wf(),
                fresh@ == collected(n_map@.take(i as int)),
            decreases n_map@.len() - i,
        {
            let (d, st) = &n_map[i];
            fresh.update_state(d.clone(), st.clone());
            assert(n_map@.take(i + 1).drop_last() =~= n_map@.take(i as int));
            i = i + 1;
        }
        assert(n_map@.take(n_map@.len() as int) =~= n_map@);
        *self = fresh;
    }
}

/// Copying out the challenges and setting them again gives back the same
/// challenges: for entries with distinct domains, building the map entry by
/// entry gives the map that the entries stand for.
pub proof fn lemma_collected_entries(s: Seq<(String, ChallengeState)>)
    requires
        distinct_keys(s),
    ensures
        collected(s) == entries_map(s),
    decreases s.len(),
{
    if s.len() == 0 {
        assert(entries_map(s) =~= Map::<Seq<char>, SpecChallengeState>::empty());
    } else {
        let r = s.drop_last();
        let k = s.last().0@;
        let v = s.last().1@;
        assert(distinct_keys(r));
        lemma_collected_entries(r);
        lemma_all_entry_values(r);
        let m = entries_map(r).insert(k, v);
        let n = s.len() - 1;
        assert forall|k2: Seq<char>| #[trigger] m.contains_key(k2) <==> exists|j: int| has_key_at(s, k2, j) by {
            if m.contains_key(k2) {
                if k2 == k {
                    assert(has_key_at(s, k2, n));
                } else {
                    let j = choose|j: int| has_key_at(r, k2, j);
                    assert(has_key_at(s, k2, j));
                }
            }
            if exists|j: int| has_key_at(s, k2, j) {
                let j = choose|j: int| has_key_at(s, k2, j);
                if j < n {
                    assert(has_key_at(r, k2, j));
                }
            }
        }
        assert forall|j: int| 0 <= j < s.len() implies m[s[j].0@] == #[trigger] s[j].1@ by {
            if j < n {
                assert(s[j] == r[j]);
                assert(s[j].0@ != k);
            }
        }
        lemma_map_of(s, m);
    }
}

/// Reading the challenges back after setting them gives what was set: once
/// `set_map(n_map)` has made the list `after`, the entries that `clone_map`
/// copies out of it (`copied`) stand for the map built from `n_map`, a later
/// entry for a domain winning, and, where the domains in `n_map` are
/// distinct, for the map that `n_map` itself stands for.
pub proof fn lemma_set_then_clone(
    n_map: Seq<(String, ChallengeState)>,
    after: ChallengeList,
    copied: Seq<(String, ChallengeState)>,
)
    requires
        after@ == collected(n_map),
        entries_map(copied) == after@,
    ensures
        entries_map(copied) == collected(n_map),
        distinct_keys(n_map) ==> entries_map(copied) == entries_map(n_map),
{
    if distinct_keys(n_map) {
        lemma_collected_entries(n_map);
    }
}

} // verus!
