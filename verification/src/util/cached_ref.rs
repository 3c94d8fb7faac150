//! A minimal fixed-value provider.
use vstd::prelude::*;
use std::sync::Arc;
use crate::context::Context;
use crate::impls::share;
use crate::traits::Provider;

verus! {

/// A provider that owns a value and returns a shared handle to that same
/// value on every call.
pub struct CachedRef<V>(pub Arc<V>);

impl<V> CachedRef<V> {
    /// Create a new provider holding `value`.
    pub fn new(value: V) -> (c: CachedRef<V>)
        ensures
            c.0 == value,
    {
        CachedRef(Arc::new(value))
    }
}

impl<Q, V> Provider<Q> for CachedRef<V> {
    type Output = Arc<V>;

    /// Always the stored value.
    open spec fn provides(&self, cx: &Context<Q>, out: Arc<V>) -> bool {
        out == self.0
    }

    fn provide(&self, cx: &Context<Q>) -> (out: Arc<V>) {
        share(&self.0)
    }
}

} // verus!
