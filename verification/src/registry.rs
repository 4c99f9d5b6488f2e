//! The read-name registry: a name-to-numeric-id lookup supplied to the
//! parser. Built and owned outside the parsing core; backed by
//! `rustc_hash::FxHashMap`, which this module holds behind trusted wrappers
//! whose contracts speak of the abstract map `registry_map`.

use vstd::prelude::*;

use rustc_hash::FxHashMap;

verus! {

/// A mapping from read name (bytes) to numeric read identifier, keys unique.
#[verifier::external_body]
pub struct Registry {
    inner: FxHashMap<Vec<u8>, u32>,
}

/// The abstract contents of a `Registry`: the map from read names to ids.
pub uninterp spec fn registry_map(r: Registry) -> Map<Seq<u8>, u32>;

/// The contents of a freshly created registry: no names at all.
pub open spec fn empty_registry() -> Map<Seq<u8>, u32> {
    Map::empty()
}

impl Registry {
    /// Relies on `rustc_hash::FxHashMap` (std `HashMap` with the Fx hasher):
    /// `default` creates an empty map.
    #[verifier::external_body]
    pub fn new() -> (r: Registry)
        ensures
            registry_map(r) == empty_registry(),
    {
        Registry { inner: FxHashMap::default() }
    }

    /// Relies on `rustc_hash::FxHashMap` (std `HashMap` with the Fx hasher):
    /// `insert` binds the key to the value, replacing any earlier binding.
    #[verifier::external_body]
    pub fn insert(&mut self, name: Vec<u8>, id: u32)
        ensures
            registry_map(*final(self)) == registry_map(*old(self)).insert(name@, id),
    {
        self.inner.insert(name, id);
    }

    /// Relies on `rustc_hash::FxHashMap` (std `HashMap` with the Fx hasher):
    /// `get` returns the value bound to an equal key, or nothing.
    #[verifier::external_body]
    pub fn get(&self, name: &[u8]) -> (r: Option<u32>)
        ensures
            r == if registry_map(*self).dom().contains(name@) {
                Some(registry_map(*self)[name@])
            } else {
                None::<u32>
            },
    {
        self.inner.get(name).copied()
    }
}

/// The registry a list of read names builds: each name bound to its position
/// in the list, a later occurrence of a repeated name replacing the earlier
/// binding.
pub open spec fn registry_of(names: Seq<Seq<u8>>) -> Map<Seq<u8>, u32>
    decreases names.len(),
{
    if names.len() == 0 {
        Map::<Seq<u8>, u32>::empty()
    } else {
        registry_of(names.drop_last()).insert(names.last(), (names.len() - 1) as u32)
    }
}

/// Build a registry from an ordered list of read names, assigning each name
/// its position as its identifier.
pub fn build_registry(names: &Vec<Vec<u8>>) -> (r: Registry)
    requires
        names@.len() <= u32::MAX,
    ensures
        registry_map(r) == registry_of(names.deep_view()),
{
    let mut r = Registry::new();
    let n = names.len();
    for i in 0..n
        invariant
            n == names@.len() <= u32::MAX,
            registry_map(r) == registry_of(names.deep_view().take(i as int)),
    {
        let name = names[i].clone();
        assert(name@ == names.deep_view()[i as int]);
        r.insert(name, i as u32);
        assert(names.deep_view().take(i + 1).drop_last() == names.deep_view().take(i as int));
        assert(names.deep_view().take(i + 1).last() == names.deep_view()[i as int]);
    }
    assert(names.deep_view().take(n as int) == names.deep_view());
    r
}

} // verus!
