//! Utilities for building providers.
use vstd::prelude::*;
use crate::impls::ProviderFn;

mod cached_ref;

pub use cached_ref::CachedRef;

verus! {

/// Type hint that wraps a plain function into a provider.
///
/// The same adapter as [`crate::provider_fn`], re-exported next to the other
/// provider-building utilities.
pub fn provider_fn<V, F: Fn() -> V>(func: F) -> (p: ProviderFn<F>)
    ensures
        p == (ProviderFn(func)),
{
    crate::provider_fn(func)
}

} // verus!
