//! A dependency-injection container: a registry that maps service keys to
//! providers able to construct the corresponding service values on demand.
//!
//! A [`Context`] holds at most one provider per [`ServiceKey`]. Providers are
//! bound once and resolved anywhere a reference to the context is available.
//! Scoping creates a child context that inherits the parent's bindings while
//! keeping its own later changes private.
use vstd::prelude::*;

mod cached;
mod cached_service;
mod context;
mod error;
mod impls;
mod traits;
pub mod util;

pub use cached::Cached;
pub use cached_service::CachedService;
pub use context::Context;
pub use error::BindError;
pub use error::UnbindError;
pub use impls::ProviderFn;
pub use traits::Provider;
pub use traits::Service;
pub use traits::ServiceKey;

verus! {

/// Type hint that wraps a plain function into a provider.
///
/// Equivalent to constructing [`ProviderFn`] directly; it exists so that a
/// call site can name the intent.
pub fn provider_fn<V, F: Fn() -> V>(func: F) -> (p: ProviderFn<F>)
    ensures
        p == (ProviderFn(func)),
{
    ProviderFn(func)
}

} // verus!
