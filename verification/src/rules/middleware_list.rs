//! The middlewares of a rule, applied in order.
use vstd::prelude::*;

use std::sync::Arc;

use crate::http::{Request, Response};
use crate::rules::action::{path_after_all, requests_ok, response_after_all, Action};
use crate::rules::middleware::Middleware;
use crate::shared::clone_shared;

verus! {

/// The actions of the middlewares, in order.
pub open spec fn actions_of(v: Seq<Arc<Middleware>>) -> Seq<Action> {
    v.map_values(|m: Arc<Middleware>| m.spec_action())
}

/// A list of middlewares, applied in order to a rule's requests and
/// responses.
pub struct MiddlewareList {
    middlewares: Vec<Arc<Middleware>>,
}

impl MiddlewareList {
    /// The actions of the middlewares, in order.
    pub closed spec fn actions(&self) -> Seq<Action> {
        actions_of(self.middlewares@)
    }

    /// Creates the list from shared middlewares.
    pub fn from(raw_middlewares: &[Arc<Middleware>]) -> (res: Self)
        ensures
            res.actions() == actions_of(raw_middlewares@),
    {
        let mut n_middlewares: Vec<Arc<Middleware>> = Vec::new();
        let mut i: usize = 0;
        while i < raw_middlewares.len()
            invariant
                0 <= i <= raw_middlewares@.len(),
                actions_of(n_middlewares@) == actions_of(raw_middlewares@.take(i as int)),
            decreases raw_middlewares@.len() - i,
        {
            let m = clone_shared(&raw_middlewares[i]);
            let ghost before = n_middlewares@;
            let ghost a = m.spec_action();
            assert(a == raw_middlewares@[i as int].spec_action());
            n_middlewares.push(m);
            proof {
                let prefix = raw_middlewares@.take(i as int);
                assert(raw_middlewares@.take(i + 1) =~= prefix.push(raw_middlewares@[i as int]));
                assert(actions_of(prefix.push(raw_middlewares@[i as int])) =~= actions_of(prefix).push(a));
                assert(actions_of(before.push(m)) =~= actions_of(before).push(a));
            }
            i = i + 1;
        }
        assert(raw_middlewares@.take(raw_middlewares@.len() as int) =~= raw_middlewares@);
        Self { middlewares: n_middlewares }
    }

    /// Applies all the middlewares to the request, in order, stopping at the
    /// first that answers the request itself; none of the actions does, so
    /// the result is `Ok`.
    pub fn apply_middlewares_req(&self, req: &mut Request) -> (res: Result<(), Response>)
        requires
            requests_ok(self.actions(), old(req).path@),
        ensures
            res is Ok,
            final(req).path@ == path_after_all(self.actions(), old(req).path@),
            final(req).protocol == old(req).protocol,
            final(req).method == old(req).method,
            final(req).headers == old(req).headers,
            final(req).body == old(req).body,
    {
        let ghost acts = self.actions();
        let mut i: usize = 0;
        while i < self.middlewares.len()
            invariant
                0 <= i <= self.middlewares@.len(),
                acts == actions_of(self.middlewares@),
                requests_ok(acts, old(req).path@),
                req.path@ == path_after_all(acts.take(i as int), old(req).path@),
                req.protocol == old(req).protocol,
                req.method == old(req).method,
                req.headers == old(req).headers,
                req.body == old(req).body,
            decreases self.middlewares@.len() - i,
        {
            proof {
                assert(acts.take(i + 1).drop_last() =~= acts.take(i as int));
                lemma_requests_ok_prefix(acts, old(req).path@, i + 1);
            }
            let r = self.middlewares[i].apply_req(req);
            if r.is_err() {
                return r;
            }
            i = i + 1;
        }
        assert(acts.take(acts.len() as int) =~= acts);
        Ok(())
    }

    /// Applies all the middlewares to the response of `req`, in order.
    pub fn apply_middlewares_resp(&self, req: &Request, resp: &mut Response)
        ensures
            final(resp)@ == response_after_all(self.actions(), *req, old(resp)@),
    {
        let ghost acts = self.actions();
        let mut i: usize = 0;
        while i < self.middlewares.len()
            invariant
                0 <= i <= self.middlewares@.len(),
                acts == actions_of(self.middlewares@),
                resp@ == response_after_all(acts.take(i as int), *req, old(resp)@),
            decreases self.middlewares@.len() - i,
        {
            proof {
                assert(acts.take(i + 1).drop_last() =~= acts.take(i as int));
            }
            self.middlewares[i].apply_resp(req, resp);
            i = i + 1;
        }
        assert(acts.take(acts.len() as int) =~= acts);
    }
}

/// The actions of a prefix that passes `requests_ok` pass it on their own.
pub proof fn lemma_requests_ok_prefix(acts: Seq<Action>, path: Seq<char>, n: int)
    requires
        requests_ok(acts, path),
        0 <= n <= acts.len(),
    ensures
        requests_ok(acts.take(n), path),
    decreases acts.len() - n,
{
    if n < acts.len() {
        lemma_requests_ok_prefix(acts, path, n + 1);
        assert(acts.take(n + 1).drop_last() =~= acts.take(n));
    } else {
        assert(acts.take(n) =~= acts);
    }
}

} // verus!
