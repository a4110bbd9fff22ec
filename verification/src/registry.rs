//! The handle registry: the single source of truth correlating entity
//! indices with the identities of simulation objects in the physics
//! world.
//!
//! Two mappings are kept, entity index to body handle and entity index to
//! collider handle. A collider handle present here is expected to exist
//! in the physics world unless the world removed it on its own when the
//! collider's parent body was destroyed; every removal path therefore
//! re-checks existence before acting (see the synchronisation engine).

use vstd::prelude::*;

verus! {

broadcast use vstd::std_specs::hash::group_hash_axioms;

/// The index-to-handle bookkeeping shared with the physics world.
pub struct HandleRegistry {
    body_handles: std::collections::HashMap<u32, u64>,
    collider_handles: std::collections::HashMap<u32, u64>,
}

impl HandleRegistry {
    /// The entity-index-to-body-handle mapping.
    pub closed spec fn bodies(&self) -> Map<u32, u64> {
        self.body_handles@
    }

    /// The entity-index-to-collider-handle mapping.
    pub closed spec fn colliders(&self) -> Map<u32, u64> {
        self.collider_handles@
    }

    /// An empty registry: no entity is correlated with any simulation
    /// object yet.
    pub fn new() -> (r: Self)
        ensures
            r.bodies() == Map::<u32, u64>::empty(),
            r.colliders() == Map::<u32, u64>::empty(),
    {
        HandleRegistry {
            body_handles: std::collections::HashMap::new(),
            collider_handles: std::collections::HashMap::new(),
        }
    }

    /// Records the body handle that the physics world assigned to the
    /// entity at `index`. Body lifecycle is otherwise outside this
    /// engine; the entry is only looked up here when colliders resolve
    /// their parent.
    pub fn insert_body(&mut self, index: u32, handle: u64)
        ensures
            final(self).bodies() == old(self).bodies().insert(index, handle),
            final(self).colliders() == old(self).colliders(),
    {
        self.body_handles.insert(index, handle);
    }

    /// The body handle registered for `index`, if any.
    pub fn body_handle(&self, index: u32) -> (r: Option<u64>)
        ensures
            r == if self.bodies().contains_key(index) {
                Some(self.bodies()[index])
            } else {
                None::<u64>
            },
    {
        match self.body_handles.get(&index) {
            Some(h) => Some(*h),
            None => None,
        }
    }

    /// The collider handle registered for `index`, if any.
    pub fn collider_handle(&self, index: u32) -> (r: Option<u64>)
        ensures
            r == if self.colliders().contains_key(index) {
                Some(self.colliders()[index])
            } else {
                None::<u64>
            },
    {
        match self.collider_handles.get(&index) {
            Some(h) => Some(*h),
            None => None,
        }
    }

    /// Records the collider handle that the physics world assigned when
    /// a create action was applied for `index`.
    pub fn record_collider(&mut self, index: u32, handle: u64)
        ensures
            final(self).colliders() == old(self).colliders().insert(index, handle),
            final(self).bodies() == old(self).bodies(),
    {
        self.collider_handles.insert(index, handle);
    }

    /// Deregisters and returns the collider handle of `index`, if one
    /// was registered; the mapping afterwards has no entry for `index`
    /// either way.
    pub fn take_collider(&mut self, index: u32) -> (r: Option<u64>)
        ensures
            final(self).colliders() == old(self).colliders().remove(index),
            final(self).bodies() == old(self).bodies(),
            r == if old(self).colliders().contains_key(index) {
                Some(old(self).colliders()[index])
            } else {
                None::<u64>
            },
    {
        self.collider_handles.remove(&index)
    }

    /// How many entities currently have a registered collider handle.
    pub fn collider_count(&self) -> (n: usize)
        ensures
            n == self.colliders().len(),
    {
        self.collider_handles.len()
    }

    /// How many entities currently have a registered body handle.
    pub fn body_count(&self) -> (n: usize)
        ensures
            n == self.bodies().len(),
    {
        self.body_handles.len()
    }
}

} // verus!
