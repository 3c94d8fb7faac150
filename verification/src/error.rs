//! The closed error taxonomy of the container.
use vstd::prelude::*;
use crate::traits::ServiceKey;

verus! {

/// Error while binding a service to a provider.
#[derive(Clone, Copy, PartialEq, Eq, Debug, Structural)]
pub enum BindError {
    /// The service is already bound to another provider in this registry.
    ServiceBound(ServiceKey),
}

impl BindError {
    /// The key of the service whose binding failed.
    pub fn key(&self) -> (k: ServiceKey)
        ensures
            *self == (BindError::ServiceBound(k)),
    {
        match self {
            BindError::ServiceBound(k) => *k,
        }
    }

    /// A short description of the failure; the key itself is carried beside
    /// it and available through [`BindError::key`].
    pub fn message(&self) -> (m: &'static str)
        ensures
            m@ == "service is already bound to a provider"@,
    {
        match self {
            BindError::ServiceBound(_) => "service is already bound to a provider",
        }
    }
}

/// Error while removing the binding of a service.
#[derive(Clone, Copy, PartialEq, Eq, Debug, Structural)]
pub enum UnbindError {
    /// The service is not bound to a provider in this registry.
    ServiceUnbound(ServiceKey),
}

impl UnbindError {
    /// The key of the service whose unbinding failed.
    pub fn key(&self) -> (k: ServiceKey)
        ensures
            *self == (UnbindError::ServiceUnbound(k)),
    {
        match self {
            UnbindError::ServiceUnbound(k) => *k,
        }
    }

    /// A short description of the failure; the key itself is carried beside
    /// it and available through [`UnbindError::key`].
    pub fn message(&self) -> (m: &'static str)
        ensures
            m@ == "service is not bound to a provider"@,
    {
        match self {
            UnbindError::ServiceUnbound(_) => "service is not bound to a provider",
        }
    }
}

} // verus!
