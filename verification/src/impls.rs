//! Ready-made [`Provider`] implementations.
use vstd::prelude::*;
use std::sync::Arc;
use crate::context::Context;
use crate::traits::Provider;

verus! {

/// Relies on `Clone` for std's `Arc`: the clone is another handle to the
/// same allocation, so it carries the same value.
#[verifier::external_body]
pub(crate) fn share<T>(handle: &Arc<T>) -> (r: Arc<T>)
    ensures
        *r == **handle,
{
    Arc::clone(handle)
}

/// Adapts a plain function or closure, taking no arguments, to the
/// [`Provider`] interface: every invocation calls the function once and
/// returns what it returned.
///
/// A provider that reads other services out of the context is written as a
/// [`Provider`] implementation of its own instead.
pub struct ProviderFn<F>(pub F);

impl<Q, V, F: Fn() -> V> Provider<Q> for ProviderFn<F> {
    type Output = V;

    /// The wrapped function's own precondition.
    open spec fn pre(&self, cx: &Context<Q>) -> bool {
        call_requires(self.0, ())
    }

    /// Exactly the input-output relation of the wrapped function.
    open spec fn provides(&self, cx: &Context<Q>, out: V) -> bool {
        call_ensures(self.0, (), out)
    }

    fn provide(&self, cx: &Context<Q>) -> (out: V) {
        (self.0)()
    }
}

/// A provider of an optional service: `None` stands for a service that is
/// configured absent, and resolves to `None` without any computation.
impl<Q, P: Provider<Q>> Provider<Q> for Option<P> {
    type Output = Option<P::Output>;

    /// The inner provider's precondition, when one is present.
    open spec fn pre(&self, cx: &Context<Q>) -> bool {
        self matches Some(p) ==> p.pre(cx)
    }

    /// `None` resolves to `None`; `Some` resolves to what the inner provider
    /// provides.
    open spec fn provides(&self, cx: &Context<Q>, out: Option<P::Output>) -> bool {
        match *self {
            Some(ref p) => out matches Some(o) && p.provides(cx, o),
            None => out is None,
        }
    }

    fn provide(&self, cx: &Context<Q>) -> (out: Option<P::Output>) {
        match self {
            Some(p) => Some(p.provide(cx)),
            None => None,
        }
    }
}

} // verus!
