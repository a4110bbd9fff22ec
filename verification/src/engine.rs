//! The synchronisation driver: one pass per tick.
//!
//! Per tick the engine drains the change events of the position store
//! and of the collider-descriptor store, takes the union of the six
//! resulting index sets, and decides for every affected entity that
//! currently carries both components exactly one lifecycle operation,
//! with priority create over update over remove. The decisions come
//! back as a list of [`SyncAction`]s, in entity order, for the caller
//! to apply to the physics world; registry bookkeeping (deregistering
//! removed and orphaned collider handles) happens in the same pass.
//!
//! The whole pass is specified by the recursive [`plan`] function, and
//! [`ColliderSyncEngine::tick`] is proved to return exactly that plan.

use vstd::prelude::*;

use crate::events::{classify, extract_events, pending, ChangeEvent, ChangeKind, Cursor,
    EventChannel};
use crate::registry::HandleRegistry;
use crate::world_view::WorldView;

verus! {

broadcast use vstd::seq_lib::group_seq_properties;

/// One entity of the tick's join: it currently carries both a position
/// and a collider-descriptor component, and optionally points at the
/// entity whose body its physics frame is relative to.
#[derive(Clone, Copy, Debug)]
pub struct EntityRecord {
    /// The entity's index in the component registry.
    pub index: u32,
    /// The index of the entity this one is attached to, if any.
    pub parent: Option<u32>,
}

/// The body part a new collider is parented to.
#[derive(Clone, Copy, PartialEq, Eq, Structural, Debug)]
pub enum BodyPartRef {
    /// The world-anchored frame: no live body was found, so the
    /// collider's translation is the entity's position plus the
    /// descriptor's offset.
    Ground,
    /// The root part of the live body with this handle: the body's own
    /// transform supplies the absolute frame, so the collider's
    /// translation is the descriptor's offset alone.
    Part(u64),
}

/// One operation the caller must apply to the physics world, in order.
#[derive(Clone, Copy, PartialEq, Eq, Structural, Debug)]
pub enum SyncAction {
    /// A stale collider handle was still registered when a new insert
    /// event arrived; it was deregistered and must be force-removed
    /// from the world before the creation that follows it.
    RemoveOrphan {
        /// The affected entity index.
        index: u32,
        /// The stale handle that was deregistered.
        handle: u64,
    },
    /// Build a new collider for this entity, parented as `parent` says,
    /// and afterwards record the world's new handle with
    /// [`HandleRegistry::record_collider`].
    Create {
        /// The affected entity index.
        index: u32,
        /// The resolved parent body part.
        parent: BodyPartRef,
    },
    /// Propagate the descriptor's current collision-group bitmask to
    /// the live collider with this handle; nothing else of the collider
    /// is touched.
    Update {
        /// The affected entity index.
        index: u32,
        /// The registered handle of the live collider.
        handle: u64,
    },
    /// The entity's collider was deregistered; remove it from the world
    /// only if `in_world` says it still exists there, since the world
    /// deletes colliders on its own when their parent body goes.
    Remove {
        /// The affected entity index.
        index: u32,
        /// The handle that was deregistered.
        handle: u64,
        /// Whether the collider was still live in the world snapshot.
        in_world: bool,
    },
}

/// The entity index an action applies to.
pub open spec fn action_index(a: SyncAction) -> u32 {
    match a {
        SyncAction::RemoveOrphan { index, .. } => index,
        SyncAction::Create { index, .. } => index,
        SyncAction::Update { index, .. } => index,
        SyncAction::Remove { index, .. } => index,
    }
}

/// A fault that aborts the tick.
#[derive(Clone, Copy, PartialEq, Eq, Structural, Debug)]
pub enum SyncError {
    /// A modify event fired for this entity index although no collider
    /// handle is registered for it: an update presupposes an earlier
    /// successful creation.
    MissingColliderHandle(u32),
}

/// What one tick does: the actions handed to the caller, the
/// collider-handle mapping the registry is left with, and the fault
/// that aborted the pass, if one did.
pub struct TickOutcome {
    /// The world operations, in entity order.
    pub actions: Seq<SyncAction>,
    /// The collider-handle mapping after the pass.
    pub colliders: Map<u32, u64>,
    /// `Some` when the pass aborted; the actions of the entities before
    /// the faulting one were already decided and their bookkeeping done.
    pub fault: Option<SyncError>,
}

/// The single event category an index is dispatched under this tick:
/// the union of the position store's and the collider store's
/// classifications, with priority insert over modify over remove when
/// the two stores disagree.
pub open spec fn union_kind(bp: Seq<ChangeEvent>, bc: Seq<ChangeEvent>, idx: u32) -> Option<
    ChangeKind,
> {
    if classify(bp, idx) == Some(ChangeKind::Inserted) || classify(bc, idx) == Some(
        ChangeKind::Inserted,
    ) {
        Some(ChangeKind::Inserted)
    } else if classify(bp, idx) == Some(ChangeKind::Modified) || classify(bc, idx) == Some(
        ChangeKind::Modified,
    ) {
        Some(ChangeKind::Modified)
    } else if classify(bp, idx) == Some(ChangeKind::Removed) || classify(bc, idx) == Some(
        ChangeKind::Removed,
    ) {
        Some(ChangeKind::Removed)
    } else {
        None
    }
}

/// The three-level fallback chain for the body part a new collider is
/// parented to: the entity's own registered body if it is still live in
/// the world; else, only when the entity has no registered body handle
/// at all, the parent entity's registered body under the same liveness
/// check; else the world-anchored frame. A missing or stale body is a
/// normal outcome, never an error.
pub open spec fn resolve_parent_spec(
    bodies: Map<u32, u64>,
    live_bodies: Seq<u64>,
    index: u32,
    parent: Option<u32>,
) -> BodyPartRef {
    if bodies.contains_key(index) {
        if live_bodies.contains(bodies[index]) {
            BodyPartRef::Part(bodies[index])
        } else {
            BodyPartRef::Ground
        }
    } else {
        match parent {
            Some(p) => if bodies.contains_key(p) {
                if live_bodies.contains(bodies[p]) {
                    BodyPartRef::Part(bodies[p])
                } else {
                    BodyPartRef::Ground
                }
            } else {
                BodyPartRef::Ground
            },
            None => BodyPartRef::Ground,
        }
    }
}

/// The actions one entity contributes to the tick, given the
/// collider-handle mapping as it stands when the entity is reached.
pub open spec fn entity_actions(
    colliders: Map<u32, u64>,
    bodies: Map<u32, u64>,
    live_bodies: Seq<u64>,
    live_colliders: Seq<u64>,
    bp: Seq<ChangeEvent>,
    bc: Seq<ChangeEvent>,
    e: EntityRecord,
) -> Result<Seq<SyncAction>, SyncError> {
    match union_kind(bp, bc, e.index) {
        None => Ok(Seq::<SyncAction>::empty()),
        Some(ChangeKind::Inserted) => {
            let create = SyncAction::Create {
                index: e.index,
                parent: resolve_parent_spec(bodies, live_bodies, e.index, e.parent),
            };
            if colliders.contains_key(e.index) {
                Ok(
                    seq![
                        SyncAction::RemoveOrphan { index: e.index, handle: colliders[e.index] },
                        create,
                    ],
                )
            } else {
                Ok(seq![create])
            }
        },
        Some(ChangeKind::Modified) => {
            if colliders.contains_key(e.index) {
                Ok(seq![SyncAction::Update { index: e.index, handle: colliders[e.index] }])
            } else {
                Err(SyncError::MissingColliderHandle(e.index))
            }
        },
        Some(ChangeKind::Removed) => {
            if colliders.contains_key(e.index) {
                Ok(
                    seq![
                        SyncAction::Remove {
                            index: e.index,
                            handle: colliders[e.index],
                            in_world: live_colliders.contains(colliders[e.index]),
                        },
                    ],
                )
            } else {
                Ok(Seq::<SyncAction>::empty())
            }
        },
    }
}

/// The collider-handle mapping after one entity's operation: a creation
/// discards any stale entry (the new handle is recorded by the caller
/// once the world assigned it), a removal deregisters the entry, and an
/// update or an untouched entity leaves the mapping as it is.
pub open spec fn entity_colliders_after(
    colliders: Map<u32, u64>,
    bp: Seq<ChangeEvent>,
    bc: Seq<ChangeEvent>,
    e: EntityRecord,
) -> Map<u32, u64> {
    match union_kind(bp, bc, e.index) {
        Some(ChangeKind::Inserted) => colliders.remove(e.index),
        Some(ChangeKind::Removed) => colliders.remove(e.index),
        _ => colliders,
    }
}

/// The whole tick over the joined entities, in order: the actions of
/// each entity concatenated, the collider-handle mapping threaded
/// through, and the first fault, if any, aborting the rest.
pub open spec fn plan(
    entities: Seq<EntityRecord>,
    colliders: Map<u32, u64>,
    bodies: Map<u32, u64>,
    live_bodies: Seq<u64>,
    live_colliders: Seq<u64>,
    bp: Seq<ChangeEvent>,
    bc: Seq<ChangeEvent>,
) -> TickOutcome
    decreases entities.len(),
{
    if entities.len() == 0 {
        TickOutcome { actions: Seq::<SyncAction>::empty(), colliders, fault: None }
    } else {
        let e = entities[0];
        match entity_actions(colliders, bodies, live_bodies, live_colliders, bp, bc, e) {
            Err(err) => TickOutcome {
                actions: Seq::<SyncAction>::empty(),
                colliders,
                fault: Some(err),
            },
            Ok(acts) => {
                let rest = plan(
                    entities.drop_first(),
                    entity_colliders_after(colliders, bp, bc, e),
                    bodies,
                    live_bodies,
                    live_colliders,
                    bp,
                    bc,
                );
                TickOutcome {
                    actions: acts + rest.actions,
                    colliders: rest.colliders,
                    fault: rest.fault,
                }
            },
        }
    }
}

/// Resolves the body part a new collider for `index` is parented to,
/// per the fallback chain of [`resolve_parent_spec`].
pub fn resolve_parent(
    index: u32,
    parent: Option<u32>,
    registry: &HandleRegistry,
    world: &WorldView,
) -> (r: BodyPartRef)
    ensures
        r == resolve_parent_spec(registry.bodies(), world.bodies(), index, parent),
{
    match registry.body_handle(index) {
        Some(h) => if world.body_exists(h) {
            BodyPartRef::Part(h)
        } else {
            BodyPartRef::Ground
        },
        None => match parent {
            Some(p) => match registry.body_handle(p) {
                Some(h) => if world.body_exists(h) {
                    BodyPartRef::Part(h)
                } else {
                    BodyPartRef::Ground
                },
                None => BodyPartRef::Ground,
            },
            None => BodyPartRef::Ground,
        },
    }
}

/// The per-tick synchronisation pass over two change-tracked component
/// stores. It owns one cursor per store; both are registered at
/// construction and advance with every tick, so no change event is ever
/// delivered twice.
pub struct ColliderSyncEngine {
    positions_cursor: Cursor,
    colliders_cursor: Cursor,
}

impl ColliderSyncEngine {
    /// The cursor offset into the position store's event log.
    pub closed spec fn positions_position(&self) -> int {
        self.positions_cursor.position()
    }

    /// The cursor offset into the collider store's event log.
    pub closed spec fn colliders_position(&self) -> int {
        self.colliders_cursor.position()
    }

    /// The cursor offset into the position store's event log, for
    /// callers that need to compare it against the log's length.
    pub fn positions_offset(&self) -> (n: usize)
        ensures
            n == self.positions_position(),
    {
        self.positions_cursor.offset()
    }

    /// The cursor offset into the collider store's event log, for
    /// callers that need to compare it against the log's length.
    pub fn colliders_offset(&self) -> (n: usize)
        ensures
            n == self.colliders_position(),
    {
        self.colliders_cursor.offset()
    }

    /// A new engine whose cursors stand at the current end of both
    /// logs: only events recorded from now on are observed.
    pub fn new(positions: &EventChannel, colliders: &EventChannel) -> (r: Self)
        ensures
            r.positions_position() == positions.log().len(),
            r.colliders_position() == colliders.log().len(),
    {
        ColliderSyncEngine {
            positions_cursor: positions.register_cursor(),
            colliders_cursor: colliders.register_cursor(),
        }
    }

    /// Runs one synchronisation pass and returns exactly the actions
    /// that [`plan`] prescribes for the events recorded since the last
    /// tick, or the first fault; either way both cursors advance to the
    /// end of their logs and the registry's collider-handle mapping is
    /// left as the plan says. Body handles are never touched.
    pub fn tick(
        &mut self,
        positions: &EventChannel,
        colliders: &EventChannel,
        entities: &Vec<EntityRecord>,
        world: &WorldView,
        registry: &mut HandleRegistry,
    ) -> (r: Result<Vec<SyncAction>, SyncError>)
        requires
            old(self).positions_position() <= positions.log().len(),
            old(self).colliders_position() <= colliders.log().len(),
        ensures
            final(self).positions_position() == positions.log().len(),
            final(self).colliders_position() == colliders.log().len(),
            final(registry).bodies() == old(registry).bodies(),
            ({
                let outcome = plan(
                    entities@,
                    old(registry).colliders(),
                    old(registry).bodies(),
                    world.bodies(),
                    world.colliders(),
                    pending(positions.log(), old(self).positions_position()),
                    pending(colliders.log(), old(self).colliders_position()),
                );
                &&& final(registry).colliders() == outcome.colliders
                &&& match r {
                    Ok(actions) => outcome.fault is None && actions@ == outcome.actions,
                    Err(err) => outcome.fault == Some(err),
                }
            }),
    {
        let ghost bp = pending(positions.log(), old(self).positions_position());
        let ghost bc = pending(colliders.log(), old(self).colliders_position());
        let ghost colliders0 = registry.colliders();
        let ghost bodies0 = registry.bodies();
        let sets_p = extract_events(positions, &mut self.positions_cursor);
        let sets_c = extract_events(colliders, &mut self.colliders_cursor);
        let mut actions: Vec<SyncAction> = Vec::new();
        let mut fault: Option<SyncError> = None;
        let mut t: usize = 0;
        while t < entities.len() && fault.is_none()
            invariant
                0 <= t <= entities@.len(),
                sets_p.classifies(bp),
                sets_c.classifies(bc),
                self.positions_cursor.position() == positions.log().len(),
                self.colliders_cursor.position() == colliders.log().len(),
                registry.bodies() == bodies0,
                ({
                    let full = plan(
                        entities@,
                        colliders0,
                        bodies0,
                        world.bodies(),
                        world.colliders(),
                        bp,
                        bc,
                    );
                    match fault {
                        None => {
                            let rest = plan(
                                entities@.skip(t as int),
                                registry.colliders(),
                                bodies0,
                                world.bodies(),
                                world.colliders(),
                                bp,
                                bc,
                            );
                            &&& full.actions == actions@ + rest.actions
                            &&& full.colliders == rest.colliders
                            &&& full.fault == rest.fault
                        },
                        Some(err) => {
                            &&& full.fault == Some(err)
                            &&& full.colliders == registry.colliders()
                        },
                    }
                }),
            decreases entities@.len() - t, (if fault is Some { 0int } else { 1int }),
        {
            let e = entities[t];
            let ghost m0 = registry.colliders();
            let ghost actions0 = actions@;
            proof {
                assert(entities@.skip(t as int)[0] == e);
                assert(entities@.skip(t as int).drop_first() =~= entities@.skip(t as int + 1));
            }
            let idx = e.index;
            let ins = index_in(&sets_p.inserted, idx) || index_in(&sets_c.inserted, idx);
            let md = index_in(&sets_p.modified, idx) || index_in(&sets_c.modified, idx);
            let rm = index_in(&sets_p.removed, idx) || index_in(&sets_c.removed, idx);
            if ins {
                match registry.take_collider(idx) {
                    Some(h) => actions.push(SyncAction::RemoveOrphan { index: idx, handle: h }),
                    None => (),
                }
                let part = resolve_parent(idx, e.parent, registry, world);
                actions.push(SyncAction::Create { index: idx, parent: part });
                proof {
                    if m0.contains_key(idx) {
                        assert(actions@ =~= actions0 + seq![
                            SyncAction::RemoveOrphan { index: idx, handle: m0[idx] },
                            SyncAction::Create {
                                index: idx,
                                parent: resolve_parent_spec(bodies0, world.bodies(), idx, e.parent),
                            },
                        ]);
                    } else {
                        assert(actions@ =~= actions0 + seq![
                            SyncAction::Create {
                                index: idx,
                                parent: resolve_parent_spec(bodies0, world.bodies(), idx, e.parent),
                            },
                        ]);
                    }
                }
            } else if md {
                match registry.collider_handle(idx) {
                    Some(h) => {
                        actions.push(SyncAction::Update { index: idx, handle: h });
                        proof {
                            assert(actions@ =~= actions0 + seq![
                                SyncAction::Update { index: idx, handle: m0[idx] },
                            ]);
                        }
                    },
                    None => {
                        proof {
                            let rest = plan(
                                entities@.skip(t as int),
                                m0,
                                bodies0,
                                world.bodies(),
                                world.colliders(),
                                bp,
                                bc,
                            );
                            assert(entity_actions(
                                m0,
                                bodies0,
                                world.bodies(),
                                world.colliders(),
                                bp,
                                bc,
                                e,
                            ) == Err::<Seq<SyncAction>, SyncError>(
                                SyncError::MissingColliderHandle(idx),
                            ));
                            assert(rest.fault == Some(SyncError::MissingColliderHandle(idx)));
                            assert(rest.colliders == m0);
                        }
                        fault = Some(SyncError::MissingColliderHandle(idx));
                    },
                }
            } else if rm {
                match registry.take_collider(idx) {
                    Some(h) => {
                        let in_world = world.collider_exists(h);
                        actions.push(
                            SyncAction::Remove { index: idx, handle: h, in_world },
                        );
                        proof {
                            assert(actions@ =~= actions0 + seq![
                                SyncAction::Remove {
                                    index: idx,
                                    handle: m0[idx],
                                    in_world: world.colliders().contains(m0[idx]),
                                },
                            ]);
                        }
                    },
                    None => (),
                }
            }
            if fault.is_none() {
                proof {
                    let rest0 = plan(
                        entities@.skip(t as int),
                        m0,
                        bodies0,
                        world.bodies(),
                        world.colliders(),
                        bp,
                        bc,
                    );
                    let rest1 = plan(
                        entities@.skip(t as int + 1),
                        registry.colliders(),
                        bodies0,
                        world.bodies(),
                        world.colliders(),
                        bp,
                        bc,
                    );
                    match entity_actions(
                        m0,
                        bodies0,
                        world.bodies(),
                        world.colliders(),
                        bp,
                        bc,
                        e,
                    ) {
                        Ok(acts) => {
                            assert(actions@ =~= actions0 + acts);
                            assert(rest0.actions == acts + rest1.actions);
                            assert((actions0 + acts) + rest1.actions =~= actions0 + (acts
                                + rest1.actions));
                        },
                        Err(_) => {
                            assert(false);
                        },
                    }
                }
                t += 1;
            }
        }
        match fault {
            Some(err) => Err(err),
            None => {
                proof {
                    assert(entities@.skip(entities@.len() as int) =~= Seq::<
                        EntityRecord,
                    >::empty());
                    let full = plan(
                        entities@,
                        colliders0,
                        bodies0,
                        world.bodies(),
                        world.colliders(),
                        bp,
                        bc,
                    );
                    assert(actions@ + Seq::<SyncAction>::empty() =~= actions@);
                    assert(full.actions == actions@);
                    assert(full.fault is None);
                }
                Ok(actions)
            },
        }
    }
}

/// Whether `set` lists the index `idx`.
fn index_in(set: &Vec<u32>, idx: u32) -> (r: bool)
    ensures
        r == set@.contains(idx),
{
    let mut k: usize = 0;
    while k < set.len()
        invariant
            0 <= k <= set@.len(),
            forall|t: int| 0 <= t < k ==> set@[t] != idx,
        decreases set@.len() - k,
    {
        if set[k] == idx {
            return true;
        }
        k += 1;
    }
    false
}

} // verus!
