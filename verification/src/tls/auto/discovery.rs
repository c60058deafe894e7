//! Keeping track of the nodes of the cluster as they are discovered.
use vstd::prelude::*;

use std::collections::HashSet;

verus! {

broadcast use vstd::std_specs::hash::group_hash_axioms;

/// The ids of `found` that are neither in `known` nor found earlier, in the
/// order found.
pub open spec fn new_ids(known: Set<u64>, found: Seq<u64>) -> Seq<u64>
    decreases found.len(),
{
    if found.len() == 0 {
        Seq::empty()
    } else if known.contains(found.last()) || found.drop_last().contains(found.last()) {
        new_ids(known, found.drop_last())
    } else {
        new_ids(known, found.drop_last()).push(found.last())
    }
}

/// Adds the found node ids to the known ones and returns the ids that were
/// new, in the order found; those are the nodes to add to the cluster.
pub fn add_new_nodes(nodes: &mut HashSet<u64>, found: &Vec<u64>) -> (added: Vec<u64>)
    ensures
        final(nodes)@ == old(nodes)@ + found@.to_set(),
        added@ == new_ids(old(nodes)@, found@),
{
    let mut added: Vec<u64> = Vec::new();
    let mut i: usize = 0;
    while i < found.len()
        invariant
            0 <= i <= found@.len(),
            nodes@ == old(nodes)@ + found@.take(i as int).to_set(),
            added@ == new_ids(old(nodes)@, found@.take(i as int)),
        decreases found@.len() - i,
    {
        let id = found[i];
        let ghost prefix = found@.take(i as int);
        let ghost next = found@.take(i + 1);
        proof {
            assert(next.drop_last() =~= prefix);
            assert(next.last() == id);
            assert(next.to_set() =~= prefix.to_set().insert(id));
        }
        if !nodes.contains(&id) {
            nodes.insert(id);
            added.push(id);
        }
        assert(nodes@ =~= old(nodes)@ + next.to_set());
        i = i + 1;
    }
    assert(found@.take(found@.len() as int) =~= found@);
    added
}

/// Keeps only the known nodes that are still present.
pub fn keep_present_nodes(nodes: &mut HashSet<u64>, present: &Vec<u64>)
    ensures
        final(nodes)@ == old(nodes)@.intersect(present@.to_set()),
{
    let mut kept: HashSet<u64> = HashSet::new();
    let mut i: usize = 0;
    while i < present.len()
        invariant
            0 <= i <= present@.len(),
            nodes@ == old(nodes)@,
            kept@ == old(nodes)@.intersect(present@.take(i as int).to_set()),
        decreases present@.len() - i,
    {
        let id = present[i];
        let ghost prefix = present@.take(i as int);
        let ghost next = present@.take(i + 1);
        proof {
            assert(next.drop_last() =~= prefix);
            assert(next.last() == id);
            assert(next.to_set() =~= prefix.to_set().insert(id));
        }
        if nodes.contains(&id) {
            kept.insert(id);
        }
        assert(kept@ =~= old(nodes)@.intersect(next.to_set()));
        i = i + 1;
    }
    assert(present@.take(present@.len() as int) =~= present@);
    *nodes = kept;
}

/// Updates the known nodes from the endpoints of the cluster's service and
/// returns the nodes to add to the cluster. Without subsets no node is
/// known any more; with fewer subsets than known nodes, nodes were removed
/// and only those still present stay; otherwise the new ones are added.
pub fn on_endpoints_updated(nodes: &mut HashSet<u64>, subsets: Option<usize>, ids: &Vec<u64>) -> (added:
    Vec<u64>)
    ensures
        match subsets {
            None => final(nodes)@ == Set::<u64>::empty() && added@.len() == 0,
            Some(count) => if count < old(nodes)@.len() {
                final(nodes)@ == old(nodes)@.intersect(ids@.to_set()) && added@.len() == 0
            } else {
                final(nodes)@ == old(nodes)@ + ids@.to_set() && added@ == new_ids(old(nodes)@, ids@)
            },
        },
{
    match subsets {
        None => {
            nodes.clear();
            Vec::new()
        },
        Some(count) => {
            if count < nodes.len() {
                keep_present_nodes(nodes, ids);
                Vec::new()
            } else {
                add_new_nodes(nodes, ids)
            }
        },
    }
}

} // verus!
