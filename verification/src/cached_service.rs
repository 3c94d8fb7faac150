//! A provider wrapping an already-computed value.
use vstd::prelude::*;
use std::sync::Arc;
use crate::context::Context;
use crate::impls::share;
use crate::traits::Provider;

verus! {

/// Cached service.
///
/// A provider that owns an already-computed value and hands out a shared
/// handle to that same value on every call, performing no computation.
pub struct CachedService<V>(pub Arc<V>);

impl<V> CachedService<V> {
    /// Create a new cached service holding `value`.
    pub fn new(value: V) -> (c: CachedService<V>)
        ensures
            c.0 == value,
    {
        CachedService(Arc::new(value))
    }
}

impl<Q, V> Provider<Q> for CachedService<V> {
    type Output = Arc<V>;

    /// Always the stored value.
    open spec fn provides(&self, cx: &Context<Q>, out: Arc<V>) -> bool {
        out == self.0
    }

    fn provide(&self, cx: &Context<Q>) -> (out: Arc<V>) {
        share(&self.0)
    }
}

} // verus!
