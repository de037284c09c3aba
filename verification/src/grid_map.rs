//! The sparse cell store: a hash map from packed grid keys to machines.
//!
//! The map itself comes from the `hashbrown` crate; Verus sees it only
//! through the contracts below, stated over an abstract view of its
//! contents. Everything built on top of it is verified against those
//! contracts.

use vstd::prelude::*;

use crate::tower::Machine;

verus! {

/// Owns one `hashbrown` hash map from packed coordinates to machines.
/// Opaque to Verus; all access goes through the contracted methods.
#[verifier::external_body]
pub struct TowerMap {
    inner: hashbrown::HashMap<u64, Machine>,
}

/// The contents of a `TowerMap`, as an abstract map. Defined only
/// through the contracts of the methods below.
pub uninterp spec fn tower_map_model(m: TowerMap) -> Map<u64, Machine>;

/// The view of a map with nothing in it.
pub open spec fn empty_grid() -> Map<u64, Machine> {
    Map::empty()
}

impl TowerMap {
    /// Relies on hashbrown::HashMap::new: creates an empty map.
    #[verifier::external_body]
    pub fn new() -> (r: TowerMap)
        ensures
            tower_map_model(r) == empty_grid(),
    {
        TowerMap { inner: hashbrown::HashMap::new() }
    }

    /// Relies on hashbrown::HashMap::len: the number of entries.
    #[verifier::external_body]
    pub fn len(&self) -> (n: usize)
        ensures
            n == tower_map_model(*self).dom().len(),
    {
        self.inner.len()
    }

    /// Relies on hashbrown::HashMap::get: the value stored under `k`,
    /// if any.
    #[verifier::external_body]
    pub fn get(&self, k: u64) -> (r: Option<&Machine>)
        ensures
            match r {
                Some(v) => tower_map_model(*self).dom().contains(k) && *v == tower_map_model(
                    *self,
                )[k],
                None => !tower_map_model(*self).dom().contains(k),
            },
    {
        self.inner.get(&k)
    }

    /// Relies on hashbrown::HashMap::insert: stores `v` under `k` and
    /// returns the value previously stored there, if any.
    #[verifier::external_body]
    pub fn insert(&mut self, k: u64, v: Machine) -> (prev: Option<Machine>)
        ensures
            tower_map_model(*final(self)) == tower_map_model(*old(self)).insert(k, v),
            match prev {
                Some(p) => tower_map_model(*old(self)).dom().contains(k) && p == tower_map_model(
                    *old(self),
                )[k],
                None => !tower_map_model(*old(self)).dom().contains(k),
            },
    {
        self.inner.insert(k, v)
    }

    /// Relies on hashbrown::HashMap::remove: removes the entry under
    /// `k` and returns its value, if any.
    #[verifier::external_body]
    pub fn remove(&mut self, k: u64) -> (prev: Option<Machine>)
        ensures
            tower_map_model(*final(self)) == tower_map_model(*old(self)).remove(k),
            match prev {
                Some(p) => tower_map_model(*old(self)).dom().contains(k) && p == tower_map_model(
                    *old(self),
                )[k],
                None => !tower_map_model(*old(self)).dom().contains(k),
            },
    {
        self.inner.remove(&k)
    }

    /// Relies on hashbrown::HashMap::keys: yields each stored key
    /// exactly once, in an unspecified order.
    #[verifier::external_body]
    pub fn keys_vec(&self) -> (ks: Vec<u64>)
        ensures
            ks@.no_duplicates(),
            forall|k: u64| ks@.contains(k) <==> tower_map_model(*self).dom().contains(k),
    {
        self.inner.keys().copied().collect()
    }
}

} // verus!
