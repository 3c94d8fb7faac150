use dfdi::provider_fn;
use dfdi::Cached;
use dfdi::CachedService;
use dfdi::Context;
use dfdi::Provider;
use dfdi::ProviderFn;
use dfdi::Service;
use dfdi::ServiceKey;
use dfdi::util::CachedRef;
use std::sync::atomic::AtomicU64;
use std::sync::atomic::Ordering;
use std::sync::Arc;

#[test]
fn memoization_computes_once() {
    let counter = Arc::new(AtomicU64::new(0));
    let seen = counter.clone();
    let key = ServiceKey::new(2);
    let mut cx: Context<Cached<ProviderFn<_>, u64>> = Context::new();
    cx.bind_with(key, Cached::new_fn(move || seen.fetch_add(1, Ordering::SeqCst) + 1));
    let first = cx.resolve(key);
    assert_eq!(*first, 1);
    for _ in 0..10 {
        assert_eq!(*cx.resolve(key), *first);
    }
    assert_eq!(counter.load(Ordering::SeqCst), 1);
}

#[test]
fn memoization_shared_across_scopes() {
    let counter = Arc::new(AtomicU64::new(0));
    let seen = counter.clone();
    let key = ServiceKey::new(2);
    let mut root: Context<Cached<ProviderFn<_>, u64>> = Context::new();
    root.bind_with(key, Cached::new_fn(move || {
        seen.fetch_add(1, Ordering::SeqCst);
        100u64
    }));
    let child = root.scoped();
    assert_eq!(*child.resolve(key), 100);
    // The provider instance is shared, so the root sees the cached value
    // and the computation is not repeated.
    assert_eq!(*root.resolve(key), 100);
    assert_eq!(counter.load(Ordering::SeqCst), 1);
}

#[test]
fn provider_fn_invoked_each_time() {
    let counter = Arc::new(AtomicU64::new(0));
    let seen = counter.clone();
    let key = ServiceKey::new(5);
    let mut cx: Context<ProviderFn<_>> = Context::new();
    cx.bind_fn(key, move || seen.fetch_add(1, Ordering::SeqCst) + 1);
    assert_eq!(cx.resolve(key), 1);
    assert_eq!(cx.resolve(key), 2);
    assert_eq!(counter.load(Ordering::SeqCst), 2);
}

#[test]
fn provider_fn_adapter_provides() {
    let cx: Context<CachedService<u64>> = Context::new();
    let p = provider_fn(|| 9u64);
    assert_eq!(p.provide(&cx), 9);
    let q = dfdi::util::provider_fn(|| 10u64);
    assert_eq!(q.provide(&cx), 10);
}

#[test]
fn cached_ref_returns_same_value() {
    let key = ServiceKey::new(6);
    let mut cx: Context<CachedRef<String>> = Context::new();
    cx.bind_with(key, CachedRef::new("stable".to_string()));
    let a = cx.resolve(key);
    let b = cx.resolve(key);
    assert_eq!(a.as_str(), "stable");
    assert!(Arc::ptr_eq(&a, &b));
}

#[test]
fn cached_service_handles_are_shared() {
    let key = ServiceKey::new(6);
    let mut cx: Context<CachedService<String>> = Context::new();
    cx.bind_with(key, CachedService::new("stable".to_string()));
    let a = cx.resolve(key);
    let b = cx.resolve(key);
    assert!(Arc::ptr_eq(&a, &b));
}

#[test]
fn option_provider_resolves_none_and_some() {
    let key = ServiceKey::new(12);
    let mut cx: Context<Option<CachedService<u64>>> = Context::new();
    cx.bind_with(key, None);
    assert!(cx.resolve(key).is_none());
    cx.try_unbind(key).unwrap();
    cx.bind_with(key, Some(CachedService::new(3u64)));
    assert_eq!(*cx.resolve(key).unwrap(), 3);
}

#[test]
fn cached_over_function_pointer() {
    let key = ServiceKey::new(13);
    let mut cx: Context<Cached<ProviderFn<fn() -> u64>, u64>> = Context::new();
    let p: Cached<ProviderFn<fn() -> u64>, u64> = Cached::new(ProviderFn(count_free as fn() -> u64));
    cx.bind_with(key, p);
    assert_eq!(*cx.resolve(key), 77);
}

fn count_free() -> u64 {
    77
}

// A provider with a default value, so that `bind` and `try_bind` can name
// the provider by type alone.
#[derive(Default)]
struct Seven;

impl<Q> Provider<Q> for Seven {
    type Output = u64;

    fn provide(&self, _cx: &Context<Q>) -> u64 {
        7
    }
}

#[test]
fn bind_default_provider() {
    let key = ServiceKey::new(14);
    let mut cx: Context<Seven> = Context::new();
    cx.try_bind(key).unwrap();
    assert_eq!(cx.resolve(key), 7);
    assert!(cx.try_bind(key).is_err());
    cx.try_unbind(key).unwrap();
    cx.bind(key);
    assert_eq!(cx.resolve(key), 7);
}

#[test]
fn service_descriptor_carries_key() {
    let key = ServiceKey::new(30);
    assert_eq!(key.key(), key);
    let marker = Door;
    let mut cx: Context<CachedService<&'static str>> = Context::new();
    cx.bind_with(marker.key(), CachedService::new("open"));
    assert_eq!(*cx.resolve(marker.key()), "open");
}

struct Door;

impl Service for Door {
    fn key(&self) -> ServiceKey {
        ServiceKey::new(31)
    }
}

// A heterogeneous provider set: a fixed configuration service next to a
// session service that resolves the configuration out of the context it is
// invoked with.
enum AppProvider {
    Config(CachedService<String>),
    Session,
}

#[derive(Debug, PartialEq, Eq)]
struct Denied;

fn config_key() -> ServiceKey {
    ServiceKey::new(100)
}

fn session_key() -> ServiceKey {
    ServiceKey::new(101)
}

impl Provider<AppProvider> for AppProvider {
    type Output = Result<Arc<String>, Denied>;

    fn provide(&self, cx: &Context<AppProvider>) -> Self::Output {
        match self {
            AppProvider::Config(c) => Ok(c.provide(cx)),
            AppProvider::Session => {
                let name = cx.try_resolve(config_key()).ok_or(Denied)??;
                if name.as_str() == "admin" {
                    Ok(name)
                } else {
                    Err(Denied)
                }
            }
        }
    }
}

#[test]
fn dependent_provider_resolves_dependency() {
    let mut cx: Context<AppProvider> = Context::new();
    cx.bind_with(config_key(), AppProvider::Config(CachedService::new("admin".to_string())));
    cx.bind_with(session_key(), AppProvider::Session);
    let session = cx.resolve(session_key()).unwrap();
    assert_eq!(session.as_str(), "admin");
}

#[test]
fn dependent_provider_denies_other_names() {
    let mut cx: Context<AppProvider> = Context::new();
    cx.bind_with(config_key(), AppProvider::Config(CachedService::new("guest".to_string())));
    cx.bind_with(session_key(), AppProvider::Session);
    assert_eq!(cx.resolve(session_key()), Err(Denied));
}
