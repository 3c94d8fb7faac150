//! The memoizing provider combinator.
use vstd::prelude::*;
use std::sync::Arc;
use once_cell::sync::OnceCell;
use crate::context::Context;
use crate::impls::ProviderFn;
use crate::traits::Provider;

verus! {

#[verifier::external_type_specification]
#[verifier::external_body]
#[verifier::reject_recursive_types(T)]
pub struct ExOnceCell<T>(OnceCell<T>);

/// Relies on once_cell's OnceCell::new: it creates an empty cell.
#[verifier::external_body]
fn empty_cell<T>() -> OnceCell<T> {
    OnceCell::new()
}

/// Relies on once_cell's OnceCell::get_or_init: it returns the cell's value,
/// first initializing the cell with the closure's result when the cell is
/// empty, and it runs the closure at most once across all concurrent
/// callers. Which earlier invocation filled the cell is state this crate
/// does not model, so nothing is claimed of the returned value.
#[verifier::external_body]
fn get_or_provide<Q, V, P: Provider<Q, Output = V>>(
    cache: &OnceCell<Arc<V>>,
    provider: &P,
    cx: &Context<Q>,
) -> Arc<V>
    requires
        provider.pre(cx),
{
    Arc::clone(cache.get_or_init(|| Arc::new(provider.provide(cx))))
}

/// Cached provider.
///
/// A provider that invokes the wrapped provider on the first call and hands
/// out a shared handle to that first result on every call, the first one
/// included. Concurrent first calls perform the computation exactly once;
/// the others wait for it and observe its result.
///
/// The cell keeps whatever value the first invocation produced. When the
/// wrapped provider's output is itself a success/failure union, a failure
/// value is cached like any other and the wrapped provider is not retried.
#[verifier::reject_recursive_types(V)]
pub struct Cached<P, V> {
    provider: P,
    cache: OnceCell<Arc<V>>,
}

impl<P, V> Cached<P, V> {
    /// The wrapped provider.
    pub closed spec fn inner(&self) -> P {
        self.provider
    }

    /// Create a new cached provider wrapping `provider`.
    pub fn new(provider: P) -> (c: Cached<P, V>)
        ensures
            c.inner() == provider,
    {
        Cached { provider, cache: empty_cell() }
    }
}

impl<V, F: Fn() -> V> Cached<ProviderFn<F>, V> {
    /// Equivalent to calling [`Cached::new`] with a plain function wrapped
    /// through [`crate::provider_fn`].
    pub fn new_fn(provider: F) -> (c: Cached<ProviderFn<F>, V>)
        ensures
            c.inner() == (ProviderFn(provider)),
    {
        Cached::new(ProviderFn(provider))
    }
}

impl<Q, V, P: Provider<Q, Output = V>> Provider<Q> for Cached<P, V> {
    type Output = Arc<V>;

    /// The wrapped provider's own precondition.
    open spec fn pre(&self, cx: &Context<Q>) -> bool {
        self.inner().pre(cx)
    }

    fn provide(&self, cx: &Context<Q>) -> (out: Arc<V>) {
        get_or_provide(&self.cache, &self.provider, cx)
    }
}

impl<P: Default, V> Default for Cached<P, V> {
    /// A cached provider wrapping the wrapped provider type's default value.
    fn default() -> (c: Cached<P, V>)
        ensures
            call_ensures(P::default, (), c.inner()),
    {
        Cached::new(P::default())
    }
}

} // verus!
