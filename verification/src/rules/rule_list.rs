//! The list of rules: the operations that change it and the search for the
//! rule that handles a request.
use vstd::prelude::*;

use std::sync::Arc;

use crate::http::{header_lookup, HeaderVal, Request};
use crate::rules::matcher::{matcher_matches, path_cut_ok};
use crate::rules::rule::{Rule, SpecRule};
use crate::shared::clone_shared;
use crate::text::str_eq;

verus! {

/// The rules of a list, each by its view.
pub open spec fn rule_views(v: Seq<Arc<Rule>>) -> Seq<SpecRule> {
    v.map_values(|r: Arc<Rule>| r@)
}

/// The rules of priority `p`, in their order in `s`.
pub open spec fn of_priority(s: Seq<SpecRule>, p: u32) -> Seq<SpecRule>
    decreases s.len(),
{
    if s.len() == 0 {
        Seq::empty()
    } else if s.last().priority == p {
        of_priority(s.drop_last(), p).push(s.last())
    } else {
        of_priority(s.drop_last(), p)
    }
}

/// Whether the rules are ordered from the highest priority to the lowest.
pub open spec fn sorted_by_priority(s: Seq<SpecRule>) -> bool {
    forall|i: int, j: int| 0 <= i < j < s.len() ==> s[i].priority >= s[j].priority
}

/// Whether `after` is `before` sorted from the highest priority to the
/// lowest, rules of equal priority keeping their order.
pub open spec fn stably_sorted(before: Seq<SpecRule>, after: Seq<SpecRule>) -> bool {
    &&& sorted_by_priority(after)
    &&& forall|p: u32| #[trigger] of_priority(after, p) == of_priority(before, p)
}

/// The position of the first rule at or after `i` named `name`.
pub open spec fn name_index_from(s: Seq<SpecRule>, name: Seq<char>, i: int) -> Option<int>
    decreases s.len() - i,
{
    if i < 0 || i >= s.len() {
        None
    } else if s[i].name == name {
        Some(i)
    } else {
        name_index_from(s, name, i + 1)
    }
}

/// The rules after setting `r`: the first rule with its name, if any, is
/// removed, and `r` is added at the end.
pub open spec fn after_set(s: Seq<SpecRule>, r: SpecRule) -> Seq<SpecRule> {
    match name_index_from(s, r.name, 0) {
        Some(i) => s.remove(i).push(r),
        None => s.push(r),
    }
}

/// The position of the first rule at or after `i` whose matcher matches.
pub open spec fn match_index_from(
    s: Seq<SpecRule>,
    i: int,
    host: Option<HeaderVal>,
    path: Seq<char>,
) -> Option<int>
    decreases s.len() - i,
{
    if i < 0 || i >= s.len() {
        None
    } else if matcher_matches(s[i].matcher, host, path) {
        Some(i)
    } else {
        match_index_from(s, i + 1, host, path)
    }
}

/// Whether trying the rules from position `i` on, up to the first that
/// matches, only cuts the path at character boundaries.
pub open spec fn cut_ok_from(s: Seq<SpecRule>, i: int, host: Option<HeaderVal>, path: Seq<char>) -> bool
    decreases s.len() - i,
{
    if i < 0 || i >= s.len() {
        true
    } else {
        path_cut_ok(s[i].matcher, host, path) && (!matcher_matches(s[i].matcher, host, path)
            ==> cut_ok_from(s, i + 1, host, path))
    }
}

/// A change to the list of rules.
pub enum ListOp {
    /// Adds the rule at the end.
    Add(Rule),
    /// Replaces the rule of the same name, or adds it.
    Replace(Rule),
    /// Sorts the rules from the highest priority to the lowest.
    Sort,
    /// Removes all rules.
    Clear,
}

/// `of_priority` of two joined lists is that of each, joined.
pub proof fn lemma_of_priority_add(a: Seq<SpecRule>, b: Seq<SpecRule>, p: u32)
    ensures
        of_priority(a + b, p) == of_priority(a, p) + of_priority(b, p),
    decreases b.len(),
{
    if b.len() == 0 {
        assert(a + b =~= a);
        assert(of_priority(a, p) + of_priority(b, p) =~= of_priority(a, p));
    } else {
        assert((a + b).drop_last() =~= a + b.drop_last());
        lemma_of_priority_add(a, b.drop_last(), p);
        assert((a + b).last() == b.last());
        if b.last().priority == p {
            assert(of_priority(a, p) + of_priority(b, p) =~= (of_priority(a, p) + of_priority(
                b.drop_last(),
                p,
            )).push(b.last()));
        }
    }
}

/// A list without rules of priority `p` has none to give.
pub proof fn lemma_of_priority_none(s: Seq<SpecRule>, p: u32)
    requires
        forall|i: int| 0 <= i < s.len() ==> s[i].priority != p,
    ensures
        of_priority(s, p) == Seq::<SpecRule>::empty(),
    decreases s.len(),
{
    if s.len() > 0 {
        lemma_of_priority_none(s.drop_last(), p);
    }
}

/// Inserting `v` into a sorted list after all rules of at least its
/// priority and before all of lower priority keeps the list sorted and adds
/// `v` at the end of its priority.
proof fn lemma_insert_sorted(s: Seq<SpecRule>, pos: int, v: SpecRule)
    requires
        sorted_by_priority(s),
        0 <= pos <= s.len(),
        forall|j: int| 0 <= j < pos ==> s[j].priority >= v.priority,
        forall|j: int| pos <= j < s.len() ==> s[j].priority < v.priority,
    ensures
        sorted_by_priority(s.insert(pos, v)),
        forall|p: u32|
            #[trigger] of_priority(s.insert(pos, v), p) == if p == v.priority {
                of_priority(s, p).push(v)
            } else {
                of_priority(s, p)
            },
{
    let t = s.insert(pos, v);
    assert forall|i: int, j: int| 0 <= i < j < t.len() implies t[i].priority >= t[j].priority by {
        if j < pos {
        } else if j == pos {
        } else if i < pos {
        } else if i == pos {
        } else {
        }
    }
    let a = s.take(pos);
    let b = s.skip(pos);
    assert(s =~= a + b);
    assert(t =~= a + seq![v] + b);
    assert forall|p: u32|
        #[trigger] of_priority(t, p) == if p == v.priority {
            of_priority(s, p).push(v)
        } else {
            of_priority(s, p)
        } by {
        lemma_of_priority_add(a + seq![v], b, p);
        lemma_of_priority_add(a, seq![v], p);
        lemma_of_priority_add(a, b, p);
        assert(seq![v].drop_last() =~= Seq::<SpecRule>::empty());
        assert(of_priority(seq![v].drop_last(), p) =~= Seq::<SpecRule>::empty());
        assert(seq![v].last() == v);
        if p == v.priority {
            assert(of_priority(seq![v], p) =~= seq![v]);
            lemma_of_priority_none(b, p);
            assert(of_priority(t, p) =~= of_priority(s, p).push(v));
        } else {
            assert(of_priority(seq![v], p) =~= Seq::<SpecRule>::empty());
            assert(of_priority(t, p) =~= of_priority(s, p));
        }
    }
}

/// Sorts the rules from the highest priority to the lowest; rules of equal
/// priority keep their order.
fn sort_rules(list: &mut Vec<Arc<Rule>>)
    ensures
        stably_sorted(rule_views(old(list)@), rule_views(final(list)@)),
{
    let mut sorted: Vec<Arc<Rule>> = Vec::new();
    let mut i: usize = 0;
    while i < list.len()
        invariant
            0 <= i <= list@.len(),
            list@ == old(list)@,
            sorted_by_priority(rule_views(sorted@)),
            forall|p: u32|
                #[trigger] of_priority(rule_views(sorted@), p) == of_priority(
                    rule_views(list@.take(i as int)),
                    p,
                ),
        decreases list@.len() - i,
    {
        let x = clone_shared(&list[i]);
        let xp = x.priority();
        let mut pos: usize = 0;
        while pos < sorted.len() && sorted[pos].priority() >= xp
            invariant
                0 <= pos <= sorted@.len(),
                forall|j: int| 0 <= j < pos ==> rule_views(sorted@)[j].priority >= xp,
            decreases sorted@.len() - pos,
        {
            pos = pos + 1;
        }
        let ghost s = rule_views(sorted@);
        let ghost v = x@;
        proof {
            assert forall|j: int| pos <= j < s.len() implies s[j].priority < v.priority by {
                assert(s[pos as int].priority < xp);
            }
            lemma_insert_sorted(s, pos as int, v);
        }
        sorted.insert(pos, x);
        proof {
            assert(rule_views(sorted@) =~= s.insert(pos as int, v));
            let before = rule_views(list@.take(i as int));
            let after = rule_views(list@.take(i + 1));
            assert(after =~= before.push(v));
            assert forall|p: u32|
                #[trigger] of_priority(rule_views(sorted@), p) == of_priority(after, p) by {
                assert(after.drop_last() =~= before);
            }
        }
        i = i + 1;
    }
    proof {
        assert(list@.take(list@.len() as int) =~= list@);
    }
    *list = sorted;
}

/// The position of the first rule named `name`.
fn name_position(list: &Vec<Arc<Rule>>, name: &str) -> (res: Option<usize>)
    ensures
        match res {
            Some(i) => name_index_from(rule_views(list@), name@, 0) == Some(i as int),
            None => name_index_from(rule_views(list@), name@, 0) is None,
        },
{
    let ghost s = rule_views(list@);
    let mut i: usize = 0;
    while i < list.len()
        invariant
            0 <= i <= list@.len(),
            s == rule_views(list@),
            name_index_from(s, name@, 0) == name_index_from(s, name@, i as int),
        decreases list@.len() - i,
    {
        if str_eq(list[i].name(), name) {
            return Some(i);
        }
        i = i + 1;
    }
    None
}

/// A position found by `name_index_from` lies inside the list.
pub proof fn lemma_name_index_bounds(s: Seq<SpecRule>, name: Seq<char>, k: int)
    requires
        0 <= k,
    ensures
        match name_index_from(s, name, k) {
            Some(i) => k <= i < s.len() && s[i].name == name,
            None => true,
        },
    decreases s.len() - k,
{
    if k < s.len() && s[k].name != name {
        lemma_name_index_bounds(s, name, k + 1);
    }
}

/// Applies the change to the list of rules.
pub fn apply_op(list: &mut Vec<Arc<Rule>>, op: &ListOp)
    ensures
        match op {
            ListOp::Add(r) => rule_views(final(list)@) == rule_views(old(list)@).push(r@),
            ListOp::Replace(r) => rule_views(final(list)@) == after_set(rule_views(old(list)@), r@),
            ListOp::Sort => stably_sorted(rule_views(old(list)@), rule_views(final(list)@)),
            ListOp::Clear => final(list)@.len() == 0,
        },
{
    match op {
        ListOp::Add(n_rule) => {
            let r = Arc::new(n_rule.clone());
            list.push(r);
            assert(rule_views(list@) =~= rule_views(old(list)@).push(n_rule@));
        },
        ListOp::Replace(n_rule) => {
            let ghost s = rule_views(list@);
            if let Some(index) = name_position(list, n_rule.name()) {
                proof {
                    lemma_name_index_bounds(s, n_rule@.name, 0);
                }
                list.remove(index);
                assert(rule_views(list@) =~= s.remove(index as int));
            }
            let r = Arc::new(n_rule.clone());
            let ghost t = rule_views(list@);
            list.push(r);
            assert(rule_views(list@) =~= t.push(n_rule@));
        },
        ListOp::Sort => {
            sort_rules(list);
        },
        ListOp::Clear => {
            list.clear();
        },
    }
}

/// Checks whether trying the rules in order, up to the first that matches,
/// cuts the request's path only at character boundaries, which `find`
/// needs.
pub fn cuts_path_safely(rules: &Vec<Arc<Rule>>, req: &Request) -> (res: bool)
    ensures
        res == cut_ok_from(rule_views(rules@), 0, header_lookup(req.headers, "Host"@), req.path@),
{
    let ghost s = rule_views(rules@);
    let ghost host = header_lookup(req.headers, "Host"@);
    let mut i: usize = 0;
    while i < rules.len()
        invariant
            0 <= i <= rules@.len(),
            s == rule_views(rules@),
            host == header_lookup(req.headers, "Host"@),
            cut_ok_from(s, 0, host, req.path@) == cut_ok_from(s, i as int, host, req.path@),
        decreases rules@.len() - i,
    {
        if !rules[i].cuts_path_safely(req) {
            return false;
        }
        if rules[i].matches(req) {
            return true;
        }
        i = i + 1;
    }
    true
}

/// Finds the first rule that matches the request.
pub fn find(rules: &Vec<Arc<Rule>>, req: &Request) -> (res: Option<Arc<Rule>>)
    requires
        cut_ok_from(rule_views(rules@), 0, header_lookup(req.headers, "Host"@), req.path@),
    ensures
        match match_index_from(rule_views(rules@), 0, header_lookup(req.headers, "Host"@), req.path@) {
            Some(i) => res is Some && res.unwrap()@ == rule_views(rules@)[i],
            None => res is None,
        },
{
    let ghost s = rule_views(rules@);
    let ghost host = header_lookup(req.headers, "Host"@);
    let mut i: usize = 0;
    while i < rules.len()
        invariant
            0 <= i <= rules@.len(),
            s == rule_views(rules@),
            host == header_lookup(req.headers, "Host"@),
            match_index_from(s, 0, host, req.path@) == match_index_from(s, i as int, host, req.path@),
            cut_ok_from(s, i as int, host, req.path@),
        decreases rules@.len() - i,
    {
        if rules[i].matches(req) {
            return Some(clone_shared(&rules[i]));
        }
        i = i + 1;
    }
    None
}

} // verus!

verus! {

/// The rule found from position `k` on matches, and none before it from `k`
/// on does.
pub proof fn lemma_match_index_from(s: Seq<SpecRule>, k: int, host: Option<HeaderVal>, path: Seq<char>)
    requires
        0 <= k,
    ensures
        match match_index_from(s, k, host, path) {
            Some(i) => k <= i < s.len() && matcher_matches(s[i].matcher, host, path) && forall|j: int|
                k <= j < i ==> !matcher_matches(#[trigger] s[j].matcher, host, path),
            None => forall|j: int| k <= j < s.len() ==> !matcher_matches(#[trigger] s[j].matcher, host, path),
        },
    decreases s.len() - k,
{
    if k < s.len() && !matcher_matches(s[k].matcher, host, path) {
        lemma_match_index_from(s, k + 1, host, path);
    }
}

/// In a list sorted by priority, the rule that `find` picks has the highest
/// priority of all the rules that match the request, and no rule matches
/// when it picks none.
pub proof fn lemma_found_rule_has_highest_priority(
    s: Seq<SpecRule>,
    host: Option<HeaderVal>,
    path: Seq<char>,
)
    requires
        sorted_by_priority(s),
    ensures
        match match_index_from(s, 0, host, path) {
            Some(i) => forall|j: int|
                0 <= j < s.len() && matcher_matches(#[trigger] s[j].matcher, host, path)
                    ==> s[j].priority <= s[i].priority,
            None => forall|j: int| 0 <= j < s.len() ==> !matcher_matches(#[trigger] s[j].matcher, host, path),
        },
{
    lemma_match_index_from(s, 0, host, path);
}

/// How many times `x` occurs in `s`.
pub open spec fn occurrences(s: Seq<SpecRule>, x: SpecRule) -> nat
    decreases s.len(),
{
    if s.len() == 0 {
        0
    } else {
        occurrences(s.drop_last(), x) + if s.last() == x {
            1nat
        } else {
            0nat
        }
    }
}

/// A rule occurs in a list as often as in the rules of its priority.
proof fn lemma_occurrences_of_priority(s: Seq<SpecRule>, x: SpecRule)
    ensures
        occurrences(of_priority(s, x.priority), x) == occurrences(s, x),
    decreases s.len(),
{
    if s.len() > 0 {
        lemma_occurrences_of_priority(s.drop_last(), x);
        if s.last().priority == x.priority {
            let f = of_priority(s.drop_last(), x.priority);
            assert(f.push(s.last()).drop_last() =~= f);
        }
    }
}

/// Sorting keeps every rule, each as often as before: the sorted list is a
/// permutation of the old one.
pub proof fn lemma_sort_is_permutation(before: Seq<SpecRule>, after: Seq<SpecRule>)
    requires
        stably_sorted(before, after),
    ensures
        forall|x: SpecRule| occurrences(after, x) == occurrences(before, x),
{
    assert forall|x: SpecRule| occurrences(after, x) == occurrences(before, x) by {
        lemma_occurrences_of_priority(after, x);
        lemma_occurrences_of_priority(before, x);
        assert(of_priority(after, x.priority) == of_priority(before, x.priority));
    }
}

/// Whether no two rules of the list have the same name.
pub open spec fn names_distinct(s: Seq<SpecRule>) -> bool {
    forall|i: int, j: int| 0 <= i < s.len() && 0 <= j < s.len() && i != j ==> s[i].name != s[j].name
}

/// The first rule with a name, if any, is the only one when names are
/// distinct.
proof fn lemma_name_index_none(s: Seq<SpecRule>, name: Seq<char>, k: int)
    requires
        0 <= k,
        name_index_from(s, name, k) is None,
    ensures
        forall|j: int| k <= j < s.len() ==> s[j].name != name,
    decreases s.len() - k,
{
    if k < s.len() {
        lemma_name_index_none(s, name, k + 1);
    }
}

/// Setting a rule in a list whose names are distinct keeps them distinct;
/// the set rule ends the list, and every other rule stays.
pub proof fn lemma_set_keeps_names_distinct(s: Seq<SpecRule>, r: SpecRule)
    requires
        names_distinct(s),
    ensures
        names_distinct(after_set(s, r)),
        after_set(s, r).last() == r,
        forall|j: int| 0 <= j < s.len() && s[j].name != r.name ==> after_set(s, r).contains(#[trigger] s[j]),
{
    let t = after_set(s, r);
    match name_index_from(s, r.name, 0) {
        Some(i) => {
            lemma_name_index_bounds(s, r.name, 0);
            let u = s.remove(i);
            assert(t == u.push(r));
            assert forall|a: int, b: int|
                0 <= a < t.len() && 0 <= b < t.len() && a != b implies t[a].name != t[b].name by {
                if a < u.len() && b < u.len() {
                    let a1 = if a < i { a } else { a + 1 };
                    let b1 = if b < i { b } else { b + 1 };
                    assert(u[a] == s[a1]);
                    assert(u[b] == s[b1]);
                } else if a < u.len() {
                    let a1 = if a < i { a } else { a + 1 };
                    assert(u[a] == s[a1]);
                    assert(a1 != i);
                } else if b < u.len() {
                    let b1 = if b < i { b } else { b + 1 };
                    assert(u[b] == s[b1]);
                    assert(b1 != i);
                }
            }
            assert forall|j: int| 0 <= j < s.len() && s[j].name != r.name implies t.contains(#[trigger] s[j]) by {
                let j1 = if j < i { j } else { j - 1 };
                assert(j != i);
                assert(t[j1] == s[j]);
            }
        },
        None => {
            lemma_name_index_none(s, r.name, 0);
            assert(t == s.push(r));
            assert forall|j: int| 0 <= j < s.len() && s[j].name != r.name implies t.contains(#[trigger] s[j]) by {
                assert(t[j] == s[j]);
            }
        },
    }
}

} // verus!
