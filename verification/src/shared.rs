//! Shared ownership of configuration items.
use vstd::prelude::*;

use std::sync::Arc;

verus! {

/// Hands out another pointer to the value behind `a`.
///
/// Trusted: `Arc::clone` only increments the reference count and returns
/// a pointer to the same allocation, so the value seen through the result
/// is the one seen through `a`.
#[verifier::external_body]
pub fn clone_shared<T>(a: &Arc<T>) -> (res: Arc<T>)
    ensures
        *res == **a,
{
    Arc::clone(a)
}

} // verus!
