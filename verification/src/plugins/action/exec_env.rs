//! The changes that an action plugin's environment collects.
use vstd::prelude::*;

verus! {

/// A change that a plugin asks for.
#[derive(Debug)]
pub enum MiddlewareOp {
    /// Replace the path of the request.
    SetPath(String),
    /// Set a header.
    SetHeader(String, String),
    /// Replace the body.
    SetBody(Vec<u8>),
}

} // verus!
