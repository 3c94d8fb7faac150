use dfdi::BindError;
use dfdi::CachedService;
use dfdi::Context;
use dfdi::ServiceKey;
use dfdi::UnbindError;
use std::sync::Arc;

#[test]
fn bind_resolve_basic() {
    let greeting = ServiceKey::new(1);
    let mut cx: Context<CachedService<String>> = Context::new();
    cx.try_bind_with(greeting, CachedService::new("hello".to_string())).unwrap();
    for _ in 0..3 {
        let out: Arc<String> = cx.resolve(greeting);
        assert_eq!(out.as_str(), "hello");
    }
}

#[test]
fn resolve_unbound_fails_then_succeeds() {
    let key = ServiceKey::new(7);
    let mut cx: Context<CachedService<u64>> = Context::new();
    assert!(cx.try_resolve(key).is_none());
    cx.try_bind_with(key, CachedService::new(42u64)).unwrap();
    let out = cx.try_resolve(key).unwrap();
    assert_eq!(*out, 42);
}

#[test]
fn double_bind_fails_and_keeps_first() {
    let key = ServiceKey::new(3);
    let mut cx: Context<CachedService<&'static str>> = Context::new();
    cx.try_bind_with(key, CachedService::new("first")).unwrap();
    let err = cx.try_bind_with(key, CachedService::new("second")).unwrap_err();
    assert!(matches!(err, BindError::ServiceBound(k) if k == key));
    assert_eq!(err.key(), key);
    assert_eq!(err.message(), "service is already bound to a provider");
    assert_eq!(*cx.resolve(key), "first");
}

#[test]
fn unbind_unbound_fails_and_changes_nothing() {
    let key = ServiceKey::new(9);
    let other = ServiceKey::new(10);
    let mut cx: Context<CachedService<u64>> = Context::new();
    cx.try_bind_with(other, CachedService::new(5u64)).unwrap();
    let err = cx.try_unbind(key).unwrap_err();
    assert!(matches!(err, UnbindError::ServiceUnbound(k) if k == key));
    assert_eq!(err.key(), key);
    assert_eq!(err.message(), "service is not bound to a provider");
    assert_eq!(*cx.try_resolve(other).unwrap(), 5);
    assert!(cx.try_resolve(key).is_none());
}

#[test]
fn unbind_removes_the_binding() {
    let key = ServiceKey::new(4);
    let mut cx: Context<CachedService<u64>> = Context::new();
    cx.bind_with(key, CachedService::new(8u64));
    cx.try_unbind(key).unwrap();
    assert!(cx.try_resolve(key).is_none());
    assert!(cx.try_unbind(key).is_err());
}

#[test]
fn scoped_inherits_and_isolates() {
    let key = ServiceKey::new(1);
    let mut root: Context<CachedService<&'static str>> = Context::new();
    root.bind_with(key, CachedService::new("v"));

    let mut child = root.scoped();
    assert_eq!(*child.resolve(key), "v");

    // Rebinding in the child shadows the inherited entry for the child only.
    child.try_bind_with(key, CachedService::new("v2")).unwrap();
    assert_eq!(*child.resolve(key), "v2");
    assert_eq!(*root.resolve(key), "v");

    // Unbinding the shadow falls back to the inherited binding.
    child.try_unbind(key).unwrap();
    assert_eq!(*child.resolve(key), "v");

    // Unbinding a merely inherited key fails and removes nothing anywhere.
    let mut other_child = root.scoped();
    let err = other_child.try_unbind(key).unwrap_err();
    assert!(matches!(err, UnbindError::ServiceUnbound(k) if k == key));
    assert_eq!(*other_child.resolve(key), "v");
    assert_eq!(*root.resolve(key), "v");
}

#[test]
fn default_context_is_empty() {
    let cx: Context<CachedService<u64>> = Context::default();
    assert!(cx.try_resolve(ServiceKey::new(1)).is_none());
}

#[test]
fn scoped_additions_stay_private() {
    let key = ServiceKey::new(21);
    let root: Context<CachedService<u64>> = Context::new();
    let mut child = root.scoped();
    child.bind_with(key, CachedService::new(11u64));
    assert_eq!(*child.resolve(key), 11);
    assert!(root.try_resolve(key).is_none());
}
