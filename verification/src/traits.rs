//! Service identity and the provider abstraction.
use vstd::prelude::*;
use crate::context::Context;

verus! {

/// The identity under which a provider is stored in a [`Context`].
///
/// Two keys denote the same logical service exactly when they are equal.
/// Callers are expected to assign each logical service its own number; the
/// context never invents keys of its own.
///
/// [`Context`]: crate::Context
#[derive(Clone, Copy, PartialEq, Eq, Hash, Debug, Structural)]
pub struct ServiceKey(pub u64);

impl ServiceKey {
    /// Make the key with the given number.
    pub fn new(id: u64) -> (k: ServiceKey)
        ensures
            k == (ServiceKey(id)),
    {
        ServiceKey(id)
    }
}

/// A service descriptor: a value that knows the [`ServiceKey`] under which
/// its service is registered.
///
/// Implementing this trait is a convenience; every context operation takes
/// the key itself.
pub trait Service {
    /// The key under which this service is bound and resolved.
    fn key(&self) -> ServiceKey;
}

impl Service for ServiceKey {
    fn key(&self) -> ServiceKey {
        *self
    }
}

/// A provider: a capability to construct one service's value, given the
/// context it is bound in.
///
/// The parameter `Q` is the provider type of the [`Context`] the provider is
/// invoked with; a context is homogeneous in `Q`, and heterogeneous provider
/// sets are expressed by making `Q` an enum over them.
///
/// [`Context`]: crate::Context
pub trait Provider<Q> {
    /// The value this provider constructs.
    type Output;

    /// What this provider demands of the context it is invoked with.
    open spec fn pre(&self, cx: &Context<Q>) -> bool {
        true
    }

    /// Which output values this provider can produce in the given context.
    open spec fn provides(&self, cx: &Context<Q>, out: Self::Output) -> bool {
        true
    }

    /// Construct the output value.
    fn provide(&self, cx: &Context<Q>) -> (out: Self::Output)
        requires
            self.pre(cx),
        ensures
            self.provides(cx, out),
    ;
}

} // verus!
