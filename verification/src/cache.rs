//! A name-keyed cache of shared interface descriptors: the standard
//! introspection and properties interfaces are built once and every node that
//! needs them receives the same shared instance.

use vstd::prelude::*;
use vstd::string::StringExecFns;
use std::sync::Arc;
use crate::namemap::{NameMap, spec_get, spec_insert, map_sorted, lemma_get_insert_same};
use crate::iface::Interface;

verus! {

/// Shares one allocation among all holders of a cached descriptor.
/// Relies on `Arc::clone`: the returned handle shares the callee's
/// allocation, so it denotes the same interface value.
#[verifier::external_body]
fn arc_clone<D, H>(a: &Arc<Interface<D, H>>) -> (r: Arc<Interface<D, H>>)
    ensures
        r == *a,
{
    a.clone()
}

/// A cache of built-in interface descriptors, so that many object paths
/// implementing the same interface share one descriptor.
pub struct IfaceCache<D, H> {
    map: NameMap<Arc<Interface<D, H>>>,
}

impl<D, H> View for IfaceCache<D, H> {
    type V = Seq<(Seq<char>, Arc<Interface<D, H>>)>;

    closed spec fn view(&self) -> Seq<(Seq<char>, Arc<Interface<D, H>>)> {
        self.map@
    }
}

impl<D, H> IfaceCache<D, H> {
    /// An empty cache.
    pub fn new() -> (r: Self)
        ensures
            r@ == Seq::<(Seq<char>, Arc<Interface<D, H>>)>::empty(),
            map_sorted(r@),
    {
        IfaceCache { map: NameMap::new() }
    }

    /// Returns the shared descriptor stored under `s`, building and storing it
    /// with `f` only if absent: a present entry is returned untouched, so all
    /// callers asking for one name observe one instance.
    pub fn get<F: FnOnce() -> Interface<D, H>>(&mut self, s: &str, f: F) -> (r: Arc<
        Interface<D, H>,
    >)
        requires
            call_requires(f, ()),
        ensures
            spec_get(final(self)@, s@) == Some(r),
            match spec_get(old(self)@, s@) {
                Some(i) => r == i && final(self)@ == old(self)@,
                None => call_ensures(f, (), *r) && final(self)@ == spec_insert(old(self)@, s@, r),
            },
            map_sorted(old(self)@) ==> map_sorted(final(self)@),
    {
        let found = self.map.contains_key(s);
        if found {
            match self.map.get(s) {
                Some(a) => {
                    return arc_clone(a);
                },
                None => {
                    unreached()
                },
            }
        } else {
            let i = f();
            let a = Arc::new(i);
            let r = arc_clone(&a);
            self.map.insert(s.to_owned(), a);
            proof {
                lemma_get_insert_same(old(self)@, s@, r);
            }
            r
        }
    }
}

/// Law: cache sharing. After one lookup of an absent name builds and stores a
/// descriptor `z` (the cache transition `IfaceCache::get` promises), a second
/// lookup of the same name finds `z` itself, so both callers hold the one
/// shared instance; `IfaceCache::get` further promises that a hit returns the
/// stored descriptor and leaves the cache unchanged.
pub proof fn lemma_cache_sharing<D, H>(
    cache: Seq<(Seq<char>, Arc<Interface<D, H>>)>,
    name: Seq<char>,
    z: Arc<Interface<D, H>>,
)
    requires
        spec_get(cache, name) is None,
    ensures
        spec_get(spec_insert(cache, name, z), name) == Some(z),
{
    lemma_get_insert_same(cache, name, z);
}

} // verus!
