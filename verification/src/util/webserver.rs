//! A small web server for internal endpoints such as metrics and the
//! communication inside the cluster.
use vstd::prelude::*;

use std::sync::Arc;

use crate::http::{internal_error_response, Response};
use crate::shared::clone_shared;

verus! {

/// A web server that listens on an address and hands each request to its
/// handler.
pub struct Webserver<H> {
    bind_addr: String,
    handler: Arc<H>,
}

impl<H> Webserver<H> {
    /// The address the server listens on.
    pub closed spec fn spec_bind_addr(&self) -> Seq<char> {
        self.bind_addr@
    }

    /// The handler of the requests.
    pub closed spec fn spec_handler(&self) -> H {
        *self.handler
    }

    /// Creates a server for the address and handler.
    pub fn new(bind_addr: String, handler: Arc<H>) -> (res: Self)
        ensures
            res.spec_bind_addr() == bind_addr@,
            res.spec_handler() == *handler,
    {
        Self { bind_addr, handler }
    }

    /// The address the server listens on.
    pub fn bind_addr(&self) -> (res: &str)
        ensures
            res@ == self.spec_bind_addr(),
    {
        self.bind_addr.as_str()
    }

    /// The handler of the requests.
    pub fn handler(&self) -> (res: Arc<H>)
        ensures
            *res == self.spec_handler(),
    {
        clone_shared(&self.handler)
    }
}

/// The response the server sends for a handler's result: the handler's
/// response, or status 500 with no headers and an empty body when the
/// handler failed.
pub fn answer_or_internal_error<E>(handled: Result<Response, E>) -> (res: Response)
    ensures
        match handled {
            Ok(r) => res == r,
            Err(_) => {
                &&& res@.protocol == "HTTP/1.1"@
                &&& res@.status_code == 500
                &&& res@.headers.len() == 0
                &&& res@.body.len() == 0
            },
        },
{
    match handled {
        Ok(r) => r,
        Err(_) => internal_error_response(),
    }
}

} // verus!
