//! Entity-keyed ordered containers: many small ordered sets and maps of
//! dense `u32` entity indices, all allocating their tree nodes out of one
//! shared pool, so that a per-owner collection costs no allocation of its
//! own. Used for per-block predecessor sets and per-table-constructor keyed
//! field maps.

use vstd::prelude::*;

verus! {

#[verifier::external_type_specification]
#[verifier::external_body]
#[verifier::reject_recursive_types(K)]
pub struct ExSetForest<K: Copy>(cranelift_bforest::SetForest<K>);

#[verifier::external_type_specification]
#[verifier::external_body]
#[verifier::reject_recursive_types(K)]
pub struct ExSet<K: Copy>(cranelift_bforest::Set<K>);

#[verifier::external_type_specification]
#[verifier::external_body]
#[verifier::reject_recursive_types(K)]
#[verifier::reject_recursive_types(V)]
pub struct ExMapForest<K: Copy, V: Copy>(cranelift_bforest::MapForest<K, V>);

#[verifier::external_type_specification]
#[verifier::external_body]
#[verifier::reject_recursive_types(K)]
#[verifier::reject_recursive_types(V)]
pub struct ExMap<K: Copy, V: Copy>(cranelift_bforest::Map<K, V>);

/// A pool of ordered sets of entity indices sharing one node forest; each
/// set is addressed by the dense slot its maker returned.
pub struct EntitySetForest {
    forest: cranelift_bforest::SetForest<u32>,
    sets: Vec<cranelift_bforest::Set<u32>>,
}

/// What each set of the pool holds, slot by slot.
pub uninterp spec fn entity_sets_view(f: EntitySetForest) -> Seq<Set<u32>>;

impl EntitySetForest {
    /// Relies on cranelift_bforest::SetForest::new: a fresh forest backs no
    /// sets at all.
    #[verifier::external_body]
    pub fn new() -> (r: Self)
        ensures
            entity_sets_view(r) == Seq::<Set<u32>>::empty(),
    {
        EntitySetForest { forest: cranelift_bforest::SetForest::new(), sets: Vec::new() }
    }

    /// How many sets have been made.
    #[verifier::external_body]
    pub fn len(&self) -> (r: usize)
        ensures
            r == entity_sets_view(*self).len(),
    {
        self.sets.len()
    }

    /// Relies on cranelift_bforest::Set::new: a fresh set is empty. Returns
    /// the new set's slot.
    #[verifier::external_body]
    pub fn new_set(&mut self) -> (r: usize)
        ensures
            entity_sets_view(*final(self)) == entity_sets_view(*old(self)).push(
                Set::<u32>::empty(),
            ),
            r == entity_sets_view(*old(self)).len(),
    {
        let n = self.sets.len();
        self.sets.push(cranelift_bforest::Set::new());
        n
    }

    /// Relies on cranelift_bforest::Set::insert with the trivial `Ord`
    /// comparator: inserts `key` into the addressed set, leaving every other
    /// set of the pool as it was, and reports whether the key was new.
    #[verifier::external_body]
    pub fn insert(&mut self, s: usize, key: u32) -> (r: bool)
        requires
            s < entity_sets_view(*old(self)).len(),
        ensures
            entity_sets_view(*final(self)) == entity_sets_view(*old(self)).update(
                s as int,
                entity_sets_view(*old(self))[s as int].insert(key),
            ),
            r == !entity_sets_view(*old(self))[s as int].contains(key),
    {
        self.sets[s].insert(key, &mut self.forest, &())
    }

    /// Relies on cranelift_bforest::Set::contains with the trivial `Ord`
    /// comparator.
    #[verifier::external_body]
    pub fn contains(&self, s: usize, key: u32) -> (r: bool)
        requires
            s < entity_sets_view(*self).len(),
        ensures
            r == entity_sets_view(*self)[s as int].contains(key),
    {
        self.sets[s].contains(key, &self.forest, &())
    }

    /// Relies on cranelift_bforest::Set::remove with the trivial `Ord`
    /// comparator: removes `key` from the addressed set, leaving every other
    /// set as it was, and reports whether the key had been present.
    #[verifier::external_body]
    pub fn remove(&mut self, s: usize, key: u32) -> (r: bool)
        requires
            s < entity_sets_view(*old(self)).len(),
        ensures
            entity_sets_view(*final(self)) == entity_sets_view(*old(self)).update(
                s as int,
                entity_sets_view(*old(self))[s as int].remove(key),
            ),
            r == entity_sets_view(*old(self))[s as int].contains(key),
    {
        self.sets[s].remove(key, &mut self.forest, &())
    }

    /// Relies on cranelift_bforest::Set::iter: walks the addressed set's
    /// B+-tree in order, so the keys come out strictly ascending and are
    /// exactly the set's members.
    #[verifier::external_body]
    pub fn elems(&self, s: usize) -> (r: Vec<u32>)
        requires
            s < entity_sets_view(*self).len(),
        ensures
            forall|i: int| 0 <= i < r@.len() - 1 ==> #[trigger] r@[i] < r@[i + 1],
            forall|i: int|
                0 <= i < r@.len() ==> entity_sets_view(*self)[s as int].contains(#[trigger] r@[i]),
            forall|k: u32| entity_sets_view(*self)[s as int].contains(k) ==> r@.contains(k),
    {
        self.sets[s].iter(&self.forest).collect()
    }
}

/// A pool of ordered maps from entity indices to entity indices sharing one
/// node forest; each map is addressed by the dense slot its maker returned.
pub struct EntityMapForest {
    forest: cranelift_bforest::MapForest<u32, u32>,
    maps: Vec<cranelift_bforest::Map<u32, u32>>,
}

/// What each map of the pool holds, slot by slot.
pub uninterp spec fn entity_maps_view(f: EntityMapForest) -> Seq<Map<u32, u32>>;

/// A pool view with no maps in it yet.
pub open spec fn no_entity_maps() -> Seq<Map<u32, u32>> {
    Seq::empty()
}

/// The view of a freshly made, empty map.
pub open spec fn empty_entity_map() -> Map<u32, u32> {
    Map::empty()
}

impl EntityMapForest {
    /// Relies on cranelift_bforest::MapForest::new: a fresh forest backs no
    /// maps at all.
    #[verifier::external_body]
    pub fn new() -> (r: Self)
        ensures
            entity_maps_view(r) == no_entity_maps(),
    {
        EntityMapForest { forest: cranelift_bforest::MapForest::new(), maps: Vec::new() }
    }

    /// How many maps have been made.
    #[verifier::external_body]
    pub fn len(&self) -> (r: usize)
        ensures
            r == entity_maps_view(*self).len(),
    {
        self.maps.len()
    }

    /// Relies on cranelift_bforest::Map::new: a fresh map is empty. Returns
    /// the new map's slot.
    #[verifier::external_body]
    pub fn new_map(&mut self) -> (r: usize)
        ensures
            entity_maps_view(*final(self)) == entity_maps_view(*old(self)).push(
                empty_entity_map(),
            ),
            r == entity_maps_view(*old(self)).len(),
    {
        let n = self.maps.len();
        self.maps.push(cranelift_bforest::Map::new());
        n
    }

    /// Relies on cranelift_bforest::Map::insert with the trivial `Ord`
    /// comparator: binds `key` to `value` in the addressed map, leaving every
    /// other map as it was, and returns the value the key was bound to
    /// before, if any.
    #[verifier::external_body]
    pub fn insert(&mut self, m: usize, key: u32, value: u32) -> (r: Option<u32>)
        requires
            m < entity_maps_view(*old(self)).len(),
        ensures
            entity_maps_view(*final(self)) == entity_maps_view(*old(self)).update(
                m as int,
                entity_maps_view(*old(self))[m as int].insert(key, value),
            ),
            r == (if entity_maps_view(*old(self))[m as int].dom().contains(key) {
                Some(entity_maps_view(*old(self))[m as int][key])
            } else {
                Option::<u32>::None
            }),
    {
        self.maps[m].insert(key, value, &mut self.forest, &())
    }

    /// Relies on cranelift_bforest::Map::get with the trivial `Ord`
    /// comparator.
    #[verifier::external_body]
    pub fn get(&self, m: usize, key: u32) -> (r: Option<u32>)
        requires
            m < entity_maps_view(*self).len(),
        ensures
            r == (if entity_maps_view(*self)[m as int].dom().contains(key) {
                Some(entity_maps_view(*self)[m as int][key])
            } else {
                Option::<u32>::None
            }),
    {
        self.maps[m].get(key, &self.forest, &())
    }

    /// Relies on cranelift_bforest::Map::remove with the trivial `Ord`
    /// comparator: unbinds `key` in the addressed map, leaving every other
    /// map as it was, and returns the value it was bound to, if any.
    #[verifier::external_body]
    pub fn remove(&mut self, m: usize, key: u32) -> (r: Option<u32>)
        requires
            m < entity_maps_view(*old(self)).len(),
        ensures
            entity_maps_view(*final(self)) == entity_maps_view(*old(self)).update(
                m as int,
                entity_maps_view(*old(self))[m as int].remove(key),
            ),
            r == (if entity_maps_view(*old(self))[m as int].dom().contains(key) {
                Some(entity_maps_view(*old(self))[m as int][key])
            } else {
                Option::<u32>::None
            }),
    {
        self.maps[m].remove(key, &mut self.forest, &())
    }

    /// Relies on cranelift_bforest::Map::iter: walks the addressed map's
    /// B+-tree in order, so the entries come out strictly ascending by key
    /// and are exactly the map's bindings.
    #[verifier::external_body]
    pub fn entries(&self, m: usize) -> (r: Vec<(u32, u32)>)
        requires
            m < entity_maps_view(*self).len(),
        ensures
            forall|i: int| 0 <= i < r@.len() - 1 ==> (#[trigger] r@[i]).0 < r@[i + 1].0,
            forall|i: int|
                0 <= i < r@.len() ==> entity_maps_view(*self)[m as int].dom().contains(
                    (#[trigger] r@[i]).0,
                ) && entity_maps_view(*self)[m as int][r@[i].0] == r@[i].1,
            forall|k: u32|
                entity_maps_view(*self)[m as int].dom().contains(k) ==> exists|i: int|
                    0 <= i < r@.len() && (#[trigger] r@[i]).0 == k,
    {
        self.maps[m].iter(&self.forest).collect()
    }
}

} // verus!
