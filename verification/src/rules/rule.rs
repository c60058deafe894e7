//! Routing rules: a matcher with a priority, middlewares and a service.
use vstd::prelude::*;

use std::sync::Arc;

use crate::http::{header_lookup, Request};
use crate::rules::action::Action;
use crate::rules::matcher::{matcher_matches, path_cut_ok, Matcher, SpecMatcher};
use crate::rules::middleware::Middleware;
use crate::rules::middleware_list::{actions_of, MiddlewareList};
use crate::rules::service::Service;
use crate::shared::clone_shared;

verus! {

/// A rule as the routing logic sees it.
pub struct SpecRule {
    pub name: Seq<char>,
    pub priority: u32,
    pub matcher: SpecMatcher,
    pub middlewares: Seq<Arc<Middleware>>,
    pub service: Service,
    pub tls: Option<Seq<char>>,
}

/// A single routing rule: a matcher, a priority, the middlewares to apply
/// and the service that receives the matching requests.
#[derive(Debug, PartialEq)]
pub struct Rule {
    name: String,
    priority: u32,
    matcher: Matcher,
    middlewares: Vec<Arc<Middleware>>,
    service: Arc<Service>,
    tls: Option<String>,
}

impl View for Rule {
    type V = SpecRule;

    closed spec fn view(&self) -> SpecRule {
        SpecRule {
            name: self.name@,
            priority: self.priority,
            matcher: self.matcher@,
            middlewares: self.middlewares@,
            service: *self.service,
            tls: match self.tls {
                Some(t) => Some(t@),
                None => None,
            },
        }
    }
}

/// Copies a list of shared middlewares.
fn clone_middlewares(v: &Vec<Arc<Middleware>>) -> (res: Vec<Arc<Middleware>>)
    ensures
        res@ == v@,
{
    let mut out: Vec<Arc<Middleware>> = Vec::new();
    let mut i: usize = 0;
    while i < v.len()
        invariant
            0 <= i <= v@.len(),
            out@ == v@.take(i as int),
        decreases v@.len() - i,
    {
        let m = clone_shared(&v[i]);
        out.push(m);
        assert(out@ =~= v@.take(i + 1));
        i = i + 1;
    }
    assert(v@.take(v@.len() as int) =~= v@);
    out
}

impl Clone for Rule {
    fn clone(&self) -> (res: Self)
        ensures
            res@ == self@,
    {
        let tls = match &self.tls {
            Some(t) => Some(t.clone()),
            None => None,
        };
        Rule {
            name: self.name.clone(),
            priority: self.priority,
            matcher: self.matcher.clone(),
            middlewares: clone_middlewares(&self.middlewares),
            service: clone_shared(&self.service),
            tls,
        }
    }
}

impl Rule {
    /// Creates a new rule from its parts, without TLS.
    pub fn new(
        name: String,
        priority: u32,
        matcher: Matcher,
        middlewares: Vec<Arc<Middleware>>,
        service: Arc<Service>,
    ) -> (res: Self)
        ensures
            res@ == (SpecRule {
                name: name@,
                priority,
                matcher: matcher@,
                middlewares: middlewares@,
                service: *service,
                tls: None,
            }),
    {
        Self { name, priority, matcher, middlewares, service, tls: None }
    }

    /// Enables TLS for the rule with the given certificate name.
    pub fn set_tls(&mut self, name: String)
        ensures
            final(self)@ == (SpecRule { tls: Some(name@), ..old(self)@ }),
    {
        self.tls = Some(name);
    }

    /// Returns the priority.
    pub fn priority(&self) -> (res: u32)
        ensures
            res == self@.priority,
    {
        self.priority
    }

    /// Returns the service that the matching requests are forwarded to.
    pub fn service(&self) -> (res: Arc<Service>)
        ensures
            *res == self@.service,
    {
        clone_shared(&self.service)
    }

    /// Returns the TLS setting.
    pub fn tls(&self) -> (res: Option<&String>)
        ensures
            match res {
                Some(t) => self@.tls == Some(t@),
                None => self@.tls is None,
            },
    {
        self.tls.as_ref()
    }

    /// Checks if the rule matches the request.
    pub fn matches(&self, req: &Request) -> (res: bool)
        requires
            path_cut_ok(self@.matcher, header_lookup(req.headers, "Host"@), req.path@),
        ensures
            res == matcher_matches(self@.matcher, header_lookup(req.headers, "Host"@), req.path@),
    {
        self.matcher.matches(req)
    }

    /// Checks whether matching the request cuts its path only at character
    /// boundaries, which `matches` needs.
    pub fn cuts_path_safely(&self, req: &Request) -> (res: bool)
        ensures
            res == path_cut_ok(self@.matcher, header_lookup(req.headers, "Host"@), req.path@),
    {
        self.matcher.cuts_path_safely(req)
    }

    /// Returns the rule's middlewares as a list.
    pub fn get_middleware_list(&self) -> (res: MiddlewareList)
        ensures
            res.actions() == actions_of(self@.middlewares),
    {
        MiddlewareList::from(self.middlewares.as_slice())
    }

    /// Returns the domain of the rule when its matcher is a domain.
    pub fn get_host(&self) -> (res: Option<String>)
        ensures
            match res {
                Some(d) => self@.matcher == SpecMatcher::Domain(d@),
                None => !(self@.matcher is Domain),
            },
    {
        match &self.matcher {
            Matcher::Domain(domain) => Some(domain.clone()),
            _ => None,
        }
    }

    /// Returns the name, by which configurations refer to the rule.
    pub fn name(&self) -> (res: &str)
        ensures
            res@ == self@.name,
    {
        self.name.as_str()
    }
}

} // verus!
