//! The parser's deduplication state: the set of ordered `(qid, tid)` pairs
//! already encountered. Backed by `rustc_hash::FxHashSet`, held behind
//! trusted wrappers whose contracts speak of the abstract set
//! `pair_set_contents`.

use vstd::prelude::*;

use rustc_hash::FxHashSet;

verus! {

/// A set of ordered read-id pairs.
#[verifier::external_body]
pub struct PairSet {
    inner: FxHashSet<(u32, u32)>,
}

/// The abstract contents of a `PairSet`.
pub uninterp spec fn pair_set_contents(s: PairSet) -> Set<(u32, u32)>;

/// The contents of a freshly created pair set: no pairs at all.
pub open spec fn empty_pairs() -> Set<(u32, u32)> {
    Set::empty()
}

impl PairSet {
    /// Relies on `rustc_hash::FxHashSet` (std `HashSet` with the Fx hasher):
    /// `default` creates an empty set.
    #[verifier::external_body]
    pub fn new() -> (s: PairSet)
        ensures
            pair_set_contents(s) == empty_pairs(),
    {
        PairSet { inner: FxHashSet::default() }
    }

    /// Relies on `rustc_hash::FxHashSet` (std `HashSet` with the Fx hasher):
    /// `insert` adds the value to the set.
    #[verifier::external_body]
    pub fn insert(&mut self, qid: u32, tid: u32)
        ensures
            pair_set_contents(*final(self)) == pair_set_contents(*old(self)).insert((qid, tid)),
    {
        self.inner.insert((qid, tid));
    }

    /// Relies on `rustc_hash::FxHashSet` (std `HashSet` with the Fx hasher):
    /// `contains` reports whether an equal value is in the set.
    #[verifier::external_body]
    pub fn contains(&self, qid: u32, tid: u32) -> (r: bool)
        ensures
            r == pair_set_contents(*self).contains((qid, tid)),
    {
        self.inner.contains(&(qid, tid))
    }
}

} // verus!
