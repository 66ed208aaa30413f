//! Shared values.
use std::sync::Arc;

use vstd::prelude::*;

verus! {

/// `Arc::clone` of the standard library: another pointer to the same value.
#[verifier::external_body]
pub(crate) fn share<T>(a: &Arc<T>) -> (r: Arc<T>)
    ensures
        r == *a,
{
    Arc::clone(a)
}

/// Another pointer to the same value, where there is one.
pub fn share_opt<T>(a: &Option<Arc<T>>) -> (r: Option<Arc<T>>)
    ensures
        r == *a,
{
    match a {
        Some(p) => Some(share(p)),
        None => None,
    }
}

} // verus!
