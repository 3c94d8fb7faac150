//! The registry: a table binding service keys to providers.
use vstd::prelude::*;
use std::sync::Arc;
use crate::error::BindError;
use crate::error::UnbindError;
use crate::impls::ProviderFn;
use crate::traits::Provider;
use crate::traits::ServiceKey;

verus! {

/// A context in which to store providers for services.
///
/// A context binds at most one provider per [`ServiceKey`]. It is created
/// empty by [`Context::new`] or as a child of an existing context by
/// [`Context::scoped`]. A child starts out reaching everything the parent
/// reached — the provider instances themselves are shared — but those
/// inherited bindings are not its own: binding a key the child only
/// inherited shadows the parent's entry for lookups through the child, and
/// unbinding touches only the child's own bindings. Changes on either side
/// after scoping are never visible on the other side.
///
/// Its mathematical content is a pair of tables: [`Context::own_map`], the
/// bindings made on this context itself, and [`Context::inherited_map`],
/// what was reachable from the parent at scoping time. Resolution reads
/// [`Context::reach_map`], their union, with own bindings winning.
pub struct Context<Q> {
    own: Vec<(ServiceKey, Arc<Q>)>,
    inherited: Vec<(ServiceKey, Arc<Q>)>,
}

/// The mapping that an association sequence stands for; of entries carrying
/// the same key, the later one wins.
pub(crate) open spec fn assoc_map<Q>(s: Seq<(ServiceKey, Arc<Q>)>) -> Map<ServiceKey, Q>
    decreases s.len(),
{
    if s.len() == 0 {
        Map::empty()
    } else {
        assoc_map(s.drop_last()).insert(s.last().0, *s.last().1)
    }
}

/// No two entries of the sequence carry the same key.
pub(crate) open spec fn distinct_keys<Q>(s: Seq<(ServiceKey, Arc<Q>)>) -> bool {
    forall|i: int, j: int| 0 <= i < j < s.len() ==> s[i].0 != s[j].0
}

/// A key is in the mapping exactly when some entry carries it.
proof fn lemma_assoc_dom<Q>(s: Seq<(ServiceKey, Arc<Q>)>, key: ServiceKey)
    ensures
        assoc_map(s).dom().contains(key) <==> exists|i: int| 0 <= i < s.len() && s[i].0 == key,
    decreases s.len(),
{
    if s.len() > 0 {
        lemma_assoc_dom(s.drop_last(), key);
        if s.last().0 == key {
            assert(s[s.len() - 1].0 == key);
        } else if exists|i: int| 0 <= i < s.len() && s[i].0 == key {
            let i = choose|i: int| 0 <= i < s.len() && s[i].0 == key;
            assert(s.drop_last()[i] == s[i]);
        }
    }
}

/// The mapping sends a key to the provider of the last entry carrying it.
proof fn lemma_assoc_last<Q>(s: Seq<(ServiceKey, Arc<Q>)>, i: int)
    requires
        0 <= i < s.len(),
        forall|j: int| i < j < s.len() ==> s[j].0 != s[i].0,
    ensures
        assoc_map(s).dom().contains(s[i].0),
        assoc_map(s)[s[i].0] == *s[i].1,
    decreases s.len(),
{
    if i < s.len() - 1 {
        assert(s.drop_last()[i] == s[i]);
        lemma_assoc_last(s.drop_last(), i);
        assert(s[i].0 != s.last().0);
    }
}

/// With distinct keys, removing an entry removes exactly its key from the
/// mapping.
proof fn lemma_assoc_remove<Q>(s: Seq<(ServiceKey, Arc<Q>)>, i: int)
    requires
        distinct_keys(s),
        0 <= i < s.len(),
    ensures
        assoc_map(s.remove(i)) =~= assoc_map(s).remove(s[i].0),
    decreases s.len(),
{
    if i == s.len() - 1 {
        assert(s.remove(i) =~= s.drop_last());
        lemma_assoc_dom(s.drop_last(), s[i].0);
        assert(forall|j: int| 0 <= j < s.drop_last().len() ==> s.drop_last()[j] == s[j]);
        assert(!assoc_map(s.drop_last()).dom().contains(s[i].0));
        assert(assoc_map(s.drop_last()) =~= assoc_map(s).remove(s[i].0));
    } else {
        assert(distinct_keys(s.drop_last())) by {
            assert(forall|m: int, n: int|
                0 <= m < n < s.drop_last().len() ==> s.drop_last()[m] == s[m] && s.drop_last()[n]
                    == s[n]);
        }
        assert(s.drop_last()[i] == s[i]);
        lemma_assoc_remove(s.drop_last(), i);
        assert(s.remove(i).drop_last() =~= s.drop_last().remove(i));
        assert(s.remove(i).last() == s.last());
        assert(assoc_map(s.remove(i)) == assoc_map(s.drop_last().remove(i)).insert(
            s.last().0,
            *s.last().1,
        ));
        assert(s[i].0 != s.last().0);
        assert(assoc_map(s.drop_last()).remove(s[i].0).insert(s.last().0, *s.last().1)
            =~= assoc_map(s.drop_last()).insert(s.last().0, *s.last().1).remove(s[i].0));
    }
}

/// Concatenation of association sequences is union of their mappings, the
/// later sequence winning.
proof fn lemma_assoc_concat<Q>(a: Seq<(ServiceKey, Arc<Q>)>, b: Seq<(ServiceKey, Arc<Q>)>)
    ensures
        assoc_map(a + b) =~= assoc_map(a).union_prefer_right(assoc_map(b)),
    decreases b.len(),
{
    if b.len() == 0 {
        assert(a + b =~= a);
    } else {
        lemma_assoc_concat(a, b.drop_last());
        assert((a + b).drop_last() =~= a + b.drop_last());
        assert((a + b).last() == b.last());
    }
}

/// The index of the last entry carrying `key`, if one exists.
fn find_last<Q>(entries: &Vec<(ServiceKey, Arc<Q>)>, key: ServiceKey) -> (r: Option<usize>)
    ensures
        match r {
            Some(i) => i < entries@.len() && entries@[i as int].0 == key && forall|j: int|
                i < j < entries@.len() ==> entries@[j].0 != key,
            None => forall|j: int| 0 <= j < entries@.len() ==> entries@[j].0 != key,
        },
{
    let mut i: usize = entries.len();
    while i > 0
        invariant
            i <= entries@.len(),
            forall|j: int| i <= j < entries@.len() ==> entries@[j].0 != key,
        decreases i,
    {
        i = i - 1;
        if entries[i].0 == key {
            return Some(i);
        }
    }
    None
}

/// Clone of an association vector; the new entries share the provider
/// instances of the old ones.
fn share_entries<Q>(entries: &Vec<(ServiceKey, Arc<Q>)>) -> (r: Vec<(ServiceKey, Arc<Q>)>)
    ensures
        r@ == entries@,
{
    let mut r: Vec<(ServiceKey, Arc<Q>)> = Vec::new();
    let mut i: usize = 0;
    while i < entries.len()
        invariant
            i <= entries@.len(),
            r@ =~= entries@.take(i as int),
        decreases entries@.len() - i,
    {
        let key = entries[i].0;
        let provider = crate::impls::share(&entries[i].1);
        r.push((key, provider));
        i = i + 1;
    }
    assert(r@ =~= entries@);
    r
}

impl<Q> Context<Q> {
    /// The bindings made on this context itself.
    pub closed spec fn own_map(&self) -> Map<ServiceKey, Q> {
        assoc_map(self.own@)
    }

    /// The bindings inherited from the parent at scoping time; empty on a
    /// root context.
    pub closed spec fn inherited_map(&self) -> Map<ServiceKey, Q> {
        assoc_map(self.inherited@)
    }

    /// Everything resolution reaches: the inherited bindings, shadowed by
    /// this context's own.
    pub open spec fn reach_map(&self) -> Map<ServiceKey, Q> {
        self.inherited_map().union_prefer_right(self.own_map())
    }

    /// Whether `key` is bound in this context itself.
    pub open spec fn bound(&self, key: ServiceKey) -> bool {
        self.own_map().dom().contains(key)
    }

    /// Whether a binding for `key` is reachable, own or inherited.
    pub open spec fn reachable(&self, key: ServiceKey) -> bool {
        self.reach_map().dom().contains(key)
    }

    /// The provider that `key` resolves to.
    pub open spec fn provider_of(&self, key: ServiceKey) -> Q
        recommends
            self.reachable(key),
    {
        self.reach_map()[key]
    }

    /// The context is well formed: one own binding per key.
    pub closed spec fn wf(&self) -> bool {
        distinct_keys(self.own@)
    }

    /// Create an empty context.
    pub fn new() -> (cx: Context<Q>)
        ensures
            cx.wf(),
            cx.own_map() == Map::<ServiceKey, Q>::empty(),
            cx.inherited_map() == Map::<ServiceKey, Q>::empty(),
    {
        Context { own: Vec::new(), inherited: Vec::new() }
    }

    /// Create a sub-context.
    ///
    /// The returned context reaches the same bindings as this one, and the
    /// two share the underlying provider instances; but none of them is the
    /// child's own, so the child may shadow any of them by a binding of its
    /// own, and anything bound or unbound afterwards on either context is
    /// not visible on the other.
    pub fn scoped(&self) -> (child: Context<Q>)
        ensures
            child.wf(),
            child.own_map() == Map::<ServiceKey, Q>::empty(),
            child.inherited_map() == self.reach_map(),
            child.reach_map() == self.reach_map(),
    {
        let mut inherited = share_entries(&self.inherited);
        let mut own = share_entries(&self.own);
        inherited.append(&mut own);
        proof {
            lemma_assoc_concat(self.inherited@, self.own@);
        }
        let child = Context { own: Vec::new(), inherited };
        proof {
            assert(child.inherited_map() =~= self.reach_map());
            assert(child.reach_map() =~= self.reach_map());
        }
        child
    }

    /// Try to register `provider` for the service keyed `key`.
    ///
    /// Fails, leaving the context unchanged, when a provider is already
    /// bound to `key` in this context itself; a merely inherited binding
    /// does not block, it is shadowed. See [`Context::bind_with`] for the
    /// version whose contract rules the failure out.
    pub fn try_bind_with(&mut self, key: ServiceKey, provider: Q) -> (r: Result<(), BindError>)
        requires
            old(self).wf(),
        ensures
            final(self).wf(),
            match r {
                Ok(()) => {
                    &&& !old(self).bound(key)
                    &&& final(self).own_map() == old(self).own_map().insert(key, provider)
                    &&& final(self).inherited_map() == old(self).inherited_map()
                },
                Err(e) => {
                    &&& old(self).bound(key)
                    &&& e == (BindError::ServiceBound(key))
                    &&& *final(self) == *old(self)
                },
            },
    {
        proof {
            lemma_assoc_dom(self.own@, key);
        }
        match find_last(&self.own, key) {
            Some(_) => Err(BindError::ServiceBound(key)),
            None => {
                let ghost s = self.own@;
                self.own.push((key, Arc::new(provider)));
                proof {
                    assert(self.own@.drop_last() =~= s);
                }
                Ok(())
            },
        }
    }

    /// Try to delete this context's own binding of the service keyed `key`.
    ///
    /// Fails, leaving the context unchanged, when no provider is bound to
    /// `key` in this context itself; inherited bindings are out of its
    /// reach, and stay reachable. See [`Context::unbind`] for the version
    /// whose contract rules the failure out.
    pub fn try_unbind(&mut self, key: ServiceKey) -> (r: Result<(), UnbindError>)
        requires
            old(self).wf(),
        ensures
            final(self).wf(),
            match r {
                Ok(()) => {
                    &&& old(self).bound(key)
                    &&& final(self).own_map() == old(self).own_map().remove(key)
                    &&& final(self).inherited_map() == old(self).inherited_map()
                },
                Err(e) => {
                    &&& !old(self).bound(key)
                    &&& e == (UnbindError::ServiceUnbound(key))
                    &&& *final(self) == *old(self)
                },
            },
    {
        proof {
            lemma_assoc_dom(self.own@, key);
        }
        match find_last(&self.own, key) {
            None => Err(UnbindError::ServiceUnbound(key)),
            Some(i) => {
                proof {
                    lemma_assoc_remove(self.own@, i as int);
                }
                let ghost s = self.own@;
                self.own.remove(i);
                proof {
                    assert forall|m: int, n: int|
                        0 <= m < n < self.own@.len() implies self.own@[m].0 != self.own@[n].0 by {
                        let m0 = if m < i { m } else { m + 1 };
                        let n0 = if n < i { n } else { n + 1 };
                        assert(self.own@[m] == s[m0]);
                        assert(self.own@[n] == s[n0]);
                    }
                }
                Ok(())
            },
        }
    }

    /// Try to resolve the service keyed `key`: invoke the provider its
    /// binding — own or inherited, own winning — reaches, with this context
    /// as the provider's context argument.
    ///
    /// Returns `None`, without invoking anything, when no binding for `key`
    /// is reachable. See [`Context::resolve`] for the version whose contract
    /// rules that out.
    pub fn try_resolve(&self, key: ServiceKey) -> (r: Option<Q::Output>) where Q: Provider<Q>
        requires
            self.wf(),
            self.reachable(key) ==> self.provider_of(key).pre(self),
        ensures
            match r {
                Some(out) => self.reachable(key) && self.provider_of(key).provides(self, out),
                None => !self.reachable(key),
            },
    {
        proof {
            lemma_assoc_dom(self.own@, key);
            lemma_assoc_dom(self.inherited@, key);
        }
        match find_last(&self.own, key) {
            Some(i) => {
                proof {
                    lemma_assoc_last(self.own@, i as int);
                }
                let provider: &Q = &self.own[i].1;
                Some(provider.provide(self))
            },
            None => {
                match find_last(&self.inherited, key) {
                    Some(i) => {
                        proof {
                            lemma_assoc_last(self.inherited@, i as int);
                        }
                        let provider: &Q = &self.inherited[i].1;
                        Some(provider.provide(self))
                    },
                    None => None,
                }
            },
        }
    }

    /// Register `provider` for the service keyed `key`, which must not be
    /// bound yet in this context itself.
    ///
    /// See [`Context::try_bind_with`] for the version that reports an
    /// occupied key as an error instead of ruling it out.
    pub fn bind_with(&mut self, key: ServiceKey, provider: Q)
        requires
            old(self).wf(),
            !old(self).bound(key),
        ensures
            final(self).wf(),
            final(self).own_map() == old(self).own_map().insert(key, provider),
            final(self).inherited_map() == old(self).inherited_map(),
    {
        let _ = self.try_bind_with(key, provider);
    }

    /// Bind the default value of the provider type to the service keyed
    /// `key`, which must not be bound yet in this context itself.
    ///
    /// See [`Context::try_bind`] for the version that reports an occupied
    /// key as an error instead of ruling it out.
    pub fn bind(&mut self, key: ServiceKey) where Q: Default
        requires
            old(self).wf(),
            !old(self).bound(key),
        ensures
            final(self).wf(),
            final(self).inherited_map() == old(self).inherited_map(),
            exists|p: Q|
                #[trigger] call_ensures(Q::default, (), p)
                    && final(self).own_map() == old(self).own_map().insert(key, p),
    {
        let _ = self.try_bind(key);
    }

    /// Try to bind the default value of the provider type to the service
    /// keyed `key`.
    ///
    /// Fails, leaving the context unchanged, when a provider is already
    /// bound to `key` in this context itself.
    pub fn try_bind(&mut self, key: ServiceKey) -> (r: Result<(), BindError>) where Q: Default
        requires
            old(self).wf(),
        ensures
            final(self).wf(),
            match r {
                Ok(()) => {
                    &&& !old(self).bound(key)
                    &&& final(self).inherited_map() == old(self).inherited_map()
                    &&& exists|p: Q|
                        #[trigger] call_ensures(Q::default, (), p)
                            && final(self).own_map() == old(self).own_map().insert(key, p)
                },
                Err(e) => {
                    &&& old(self).bound(key)
                    &&& e == (BindError::ServiceBound(key))
                    &&& *final(self) == *old(self)
                },
            },
    {
        let provider = Q::default();
        self.try_bind_with(key, provider)
    }

    /// Delete this context's own binding of the service keyed `key`, which
    /// must be bound in this context itself.
    ///
    /// See [`Context::try_unbind`] for the version that reports a missing
    /// binding as an error instead of ruling it out.
    pub fn unbind(&mut self, key: ServiceKey)
        requires
            old(self).wf(),
            old(self).bound(key),
        ensures
            final(self).wf(),
            final(self).own_map() == old(self).own_map().remove(key),
            final(self).inherited_map() == old(self).inherited_map(),
    {
        let _ = self.try_unbind(key);
    }

    /// Resolve the service keyed `key`, a binding of which must be
    /// reachable: invoke the provider bound to it and return its output.
    ///
    /// See [`Context::try_resolve`] for the version that reports a missing
    /// binding as `None` instead of ruling it out.
    pub fn resolve(&self, key: ServiceKey) -> (out: Q::Output) where Q: Provider<Q>
        requires
            self.wf(),
            self.reachable(key),
            self.provider_of(key).pre(self),
        ensures
            self.provider_of(key).provides(self, out),
    {
        self.try_resolve(key).unwrap()
    }
}

impl<Q> Default for Context<Q> {
    /// An empty context, as [`Context::new`] makes it.
    fn default() -> (cx: Context<Q>)
        ensures
            cx.wf(),
            cx.own_map() == Map::<ServiceKey, Q>::empty(),
            cx.inherited_map() == Map::<ServiceKey, Q>::empty(),
    {
        Context::new()
    }
}

/// Law: binding installs the provider. After a successful bind of `key` to
/// `p` — per [`Context::try_bind_with`]'s contract, the own table gains
/// `key -> p` and the inherited table is unchanged — `key` is occupied, so a
/// further bind of `key` on the same context fails with
/// [`BindError::ServiceBound`] and changes nothing, again by that contract;
/// and the provider that resolution reaches under `key` is `p` itself.
pub proof fn lemma_bind_activates<Q>(before: Context<Q>, after: Context<Q>, key: ServiceKey, p: Q)
    requires
        after.own_map() == before.own_map().insert(key, p),
        after.inherited_map() == before.inherited_map(),
    ensures
        after.bound(key),
        after.reachable(key),
        after.provider_of(key) == p,
{
}

/// Law: binding or unbinding one key touches no other. Whatever one
/// operation did to the own table — insert on a successful bind, remove on a
/// successful unbind, per their contracts — every other key still reaches
/// exactly the provider it reached before.
pub proof fn lemma_other_keys_untouched<Q>(
    before: Context<Q>,
    after: Context<Q>,
    key: ServiceKey,
    other: ServiceKey,
)
    requires
        after.own_map() == before.own_map().insert(key, after.own_map()[key]) || after.own_map()
            == before.own_map().remove(key),
        after.inherited_map() == before.inherited_map(),
        other != key,
    ensures
        after.reachable(other) == before.reachable(other),
        after.reachable(other) ==> after.provider_of(other) == before.provider_of(other),
{
}

/// Law: removing an own binding uncovers the inherited one. After a
/// successful unbind of `key` — per [`Context::try_unbind`]'s contract, the
/// own table loses `key` and the inherited table is untouched — `key` is
/// reachable exactly when an inherited binding for it exists, and then
/// resolves to that inherited provider again.
pub proof fn lemma_unbind_uncovers<Q>(before: Context<Q>, after: Context<Q>, key: ServiceKey)
    requires
        after.own_map() == before.own_map().remove(key),
        after.inherited_map() == before.inherited_map(),
    ensures
        after.reachable(key) == before.inherited_map().dom().contains(key),
        after.reachable(key) ==> after.provider_of(key) == before.inherited_map()[key],
{
}

/// Law: at scoping time a child reaches exactly what the parent reaches —
/// per [`Context::scoped`]'s contract, the child's inherited table is the
/// parent's reach and its own table is empty — and none of it is the child's
/// own. So the child may rebind any key at once ([`Context::try_bind_with`]
/// succeeds and shadows), while unbinding a merely inherited key on the
/// child fails with [`UnbindError::ServiceUnbound`] and changes nothing, by
/// [`Context::try_unbind`]'s contract.
pub proof fn lemma_scoped_inherits<Q>(parent: Context<Q>, child: Context<Q>, key: ServiceKey)
    requires
        child.own_map() == Map::<ServiceKey, Q>::empty(),
        child.inherited_map() == parent.reach_map(),
        parent.reachable(key),
    ensures
        !child.bound(key),
        child.reachable(key),
        child.provider_of(key) == parent.provider_of(key),
{
}

impl<V, F: Fn() -> V> Context<ProviderFn<F>> {
    /// Register a plain function as the provider for the service keyed
    /// `key`, which must not be bound yet in this context itself.
    ///
    /// See [`Context::try_bind_fn`] for the version that reports an occupied
    /// key as an error instead of ruling it out.
    pub fn bind_fn(&mut self, key: ServiceKey, provider_fn: F)
        requires
            old(self).wf(),
            !old(self).bound(key),
        ensures
            final(self).wf(),
            final(self).own_map() == old(self).own_map().insert(key, (ProviderFn(provider_fn))),
            final(self).inherited_map() == old(self).inherited_map(),
    {
        let _ = self.try_bind_fn(key, provider_fn);
    }

    /// Try to register a plain function as the provider for the service
    /// keyed `key`.
    ///
    /// Fails, leaving the context unchanged, when a provider is already
    /// bound to `key` in this context itself.
    pub fn try_bind_fn(&mut self, key: ServiceKey, provider_fn: F) -> (r: Result<(), BindError>)
        requires
            old(self).wf(),
        ensures
            final(self).wf(),
            match r {
                Ok(()) => {
                    &&& !old(self).bound(key)
                    &&& final(self).own_map()
                        == old(self).own_map().insert(key, (ProviderFn(provider_fn)))
                    &&& final(self).inherited_map() == old(self).inherited_map()
                },
                Err(e) => {
                    &&& old(self).bound(key)
                    &&& e == (BindError::ServiceBound(key))
                    &&& *final(self) == *old(self)
                },
            },
    {
        self.try_bind_with(key, ProviderFn(provider_fn))
    }
}

} // verus!
