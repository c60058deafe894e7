//! Named actions that rules apply to their requests and responses.
use vstd::prelude::*;

use crate::http::{Request, Response};
use crate::rules::action::{path_after, request_ok, response_after, Action};

verus! {

/// A named action.
#[derive(Clone, Debug, PartialEq)]
pub struct Middleware {
    name: String,
    action: Action,
}

impl Middleware {
    /// The name of the middleware.
    pub closed spec fn spec_name(&self) -> Seq<char> {
        self.name@
    }

    /// The action of the middleware.
    pub closed spec fn spec_action(&self) -> Action {
        self.action
    }

    /// Creates a middleware with the given name and action.
    pub fn new(name: &str, action: Action) -> (res: Self)
        ensures
            res.spec_name() == name@,
            res.spec_action() == action,
    {
        Self { name: name.to_owned(), action }
    }

    /// Applies the action to the request.
    pub fn apply_req(&self, req: &mut Request) -> (res: Result<(), Response>)
        requires
            request_ok(self.spec_action(), old(req).path@),
        ensures
            res is Ok,
            final(req).path@ == path_after(self.spec_action(), old(req).path@),
            final(req).protocol == old(req).protocol,
            final(req).method == old(req).method,
            final(req).headers == old(req).headers,
            final(req).body == old(req).body,
    {
        self.action.apply_req(req)
    }

    /// Applies the action to the response of `req`.
    pub fn apply_resp(&self, req: &Request, resp: &mut Response)
        ensures
            final(resp)@ == response_after(self.spec_action(), *req, old(resp)@),
    {
        self.action.apply_resp(req, resp)
    }

    /// Returns the name.
    pub fn get_name(&self) -> (res: &str)
        ensures
            res@ == self.spec_name(),
    {
        self.name.as_str()
    }

    /// Returns the name, by which configurations refer to the middleware.
    pub fn name(&self) -> (res: &str)
        ensures
            res@ == self.spec_name(),
    {
        self.name.as_str()
    }
}

} // verus!
