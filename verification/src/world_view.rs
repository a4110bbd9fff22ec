//! A snapshot of what the physics world currently holds, as far as the
//! synchronisation engine needs to observe it.
//!
//! The physics world owns its objects and may delete colliders on its
//! own when their parent body is destroyed, so the engine never assumes
//! a registered handle is still live: it consults this snapshot, taken
//! by the caller right before a tick, for body and collider existence.

use vstd::prelude::*;

verus! {

/// The handles of the bodies and colliders that were live in the physics
/// world when the snapshot was taken.
pub struct WorldView {
    live_bodies: Vec<u64>,
    live_colliders: Vec<u64>,
}

impl WorldView {
    /// The body handles that were live.
    pub closed spec fn bodies(&self) -> Seq<u64> {
        self.live_bodies@
    }

    /// The collider handles that were live.
    pub closed spec fn colliders(&self) -> Seq<u64> {
        self.live_colliders@
    }

    /// A snapshot of an empty world.
    pub fn new() -> (r: Self)
        ensures
            r.bodies() == Seq::<u64>::empty(),
            r.colliders() == Seq::<u64>::empty(),
    {
        WorldView { live_bodies: Vec::new(), live_colliders: Vec::new() }
    }

    /// Notes one live body handle.
    pub fn note_body(&mut self, handle: u64)
        ensures
            final(self).bodies() == old(self).bodies().push(handle),
            final(self).colliders() == old(self).colliders(),
    {
        self.live_bodies.push(handle);
    }

    /// Notes one live collider handle.
    pub fn note_collider(&mut self, handle: u64)
        ensures
            final(self).colliders() == old(self).colliders().push(handle),
            final(self).bodies() == old(self).bodies(),
    {
        self.live_colliders.push(handle);
    }

    /// Whether a body with this handle was live in the snapshot.
    pub fn body_exists(&self, handle: u64) -> (r: bool)
        ensures
            r == self.bodies().contains(handle),
    {
        handle_listed(&self.live_bodies, handle)
    }

    /// Whether a collider with this handle was live in the snapshot.
    pub fn collider_exists(&self, handle: u64) -> (r: bool)
        ensures
            r == self.colliders().contains(handle),
    {
        handle_listed(&self.live_colliders, handle)
    }
}

fn handle_listed(handles: &Vec<u64>, handle: u64) -> (r: bool)
    ensures
        r == handles@.contains(handle),
{
    let mut k: usize = 0;
    while k < handles.len()
        invariant
            0 <= k <= handles@.len(),
            forall|t: int| 0 <= t < k ==> handles@[t] != handle,
        decreases handles@.len() - k,
    {
        if handles[k] == handle {
            return true;
        }
        k += 1;
    }
    false
}

} // verus!
