//! The guarantees of the synchronisation pass, stated and proved over
//! the [`plan`](crate::engine::plan) model that
//! [`ColliderSyncEngine::tick`](crate::engine::ColliderSyncEngine::tick)
//! is proved to implement exactly.

use vstd::prelude::*;

use crate::engine::{entity_actions, plan, resolve_parent_spec, union_kind, BodyPartRef,
    EntityRecord, SyncAction};
use crate::events::{pending, ChangeEvent, ChangeKind, EventSets};

verus! {

broadcast use vstd::seq_lib::group_seq_properties;

/// Whether `a` is the dispatched lifecycle operation of category `kind`
/// for the index `idx`. The orphan-handle clean-up that precedes a
/// creation is part of the create operation, not a dispatch of its own.
pub open spec fn is_dispatch_for(a: SyncAction, idx: u32, kind: ChangeKind) -> bool {
    match a {
        SyncAction::Create { index, .. } => index == idx && kind == ChangeKind::Inserted,
        SyncAction::Update { index, .. } => index == idx && kind == ChangeKind::Modified,
        SyncAction::Remove { index, .. } => index == idx && kind == ChangeKind::Removed,
        SyncAction::RemoveOrphan { .. } => false,
    }
}

/// How many actions of `actions` dispatch the operation of category
/// `kind` for `idx`.
pub open spec fn dispatch_count(actions: Seq<SyncAction>, idx: u32, kind: ChangeKind) -> nat
    decreases actions.len(),
{
    if actions.len() == 0 {
        0
    } else {
        dispatch_count(actions.drop_last(), idx, kind) + (if is_dispatch_for(
            actions.last(),
            idx,
            kind,
        ) {
            1nat
        } else {
            0nat
        })
    }
}

proof fn lemma_dispatch_count_add(
    a: Seq<SyncAction>,
    b: Seq<SyncAction>,
    idx: u32,
    kind: ChangeKind,
)
    ensures
        dispatch_count(a + b, idx, kind) == dispatch_count(a, idx, kind) + dispatch_count(
            b,
            idx,
            kind,
        ),
    decreases b.len(),
{
    if b.len() == 0 {
        assert(a + b =~= a);
    } else {
        assert((a + b).drop_last() =~= a + b.drop_last());
        lemma_dispatch_count_add(a, b.drop_last(), idx, kind);
    }
}

proof fn lemma_count_singleton(a: SyncAction, idx: u32, kind: ChangeKind)
    ensures
        dispatch_count(seq![a], idx, kind) == if is_dispatch_for(a, idx, kind) {
            1nat
        } else {
            0nat
        },
{
    assert(dispatch_count(Seq::<SyncAction>::empty(), idx, kind) == 0);
    assert(seq![a].drop_last() =~= Seq::<SyncAction>::empty());
}

proof fn lemma_count_pair(a: SyncAction, b: SyncAction, idx: u32, kind: ChangeKind)
    ensures
        dispatch_count(seq![a, b], idx, kind) == (if is_dispatch_for(a, idx, kind) {
            1nat
        } else {
            0nat
        }) + (if is_dispatch_for(b, idx, kind) {
            1nat
        } else {
            0nat
        }),
{
    assert(seq![a, b].drop_last() =~= seq![a]);
    lemma_count_singleton(a, idx, kind);
}

/// No action of a plan speaks of an index that none of the joined
/// entities has.
proof fn lemma_plan_foreign_counts(
    entities: Seq<EntityRecord>,
    colliders: Map<u32, u64>,
    bodies: Map<u32, u64>,
    live_bodies: Seq<u64>,
    live_colliders: Seq<u64>,
    bp: Seq<ChangeEvent>,
    bc: Seq<ChangeEvent>,
    idx: u32,
    kind: ChangeKind,
)
    requires
        forall|i: int| 0 <= i < entities.len() ==> (#[trigger] entities[i]).index != idx,
    ensures
        dispatch_count(
            plan(entities, colliders, bodies, live_bodies, live_colliders, bp, bc).actions,
            idx,
            kind,
        ) == 0,
    decreases entities.len(),
{
    if entities.len() > 0 {
        let e = entities[0];
        match entity_actions(colliders, bodies, live_bodies, live_colliders, bp, bc, e) {
            Err(_) => {},
            Ok(acts) => {
                match union_kind(bp, bc, e.index) {
                    None => {},
                    Some(ChangeKind::Inserted) => {
                        if colliders.contains_key(e.index) {
                            lemma_count_pair(acts[0], acts[1], idx, kind);
                            assert(acts =~= seq![acts[0], acts[1]]);
                        } else {
                            lemma_count_singleton(acts[0], idx, kind);
                            assert(acts =~= seq![acts[0]]);
                        }
                    },
                    Some(ChangeKind::Modified) => {
                        lemma_count_singleton(acts[0], idx, kind);
                        assert(acts =~= seq![acts[0]]);
                    },
                    Some(ChangeKind::Removed) => {
                        if colliders.contains_key(e.index) {
                            lemma_count_singleton(acts[0], idx, kind);
                            assert(acts =~= seq![acts[0]]);
                        }
                    },
                }
                let after = crate::engine::entity_colliders_after(colliders, bp, bc, e);
                lemma_plan_foreign_counts(
                    entities.drop_first(),
                    after,
                    bodies,
                    live_bodies,
                    live_colliders,
                    bp,
                    bc,
                    idx,
                    kind,
                );
                lemma_dispatch_count_add(
                    acts,
                    plan(
                        entities.drop_first(),
                        after,
                        bodies,
                        live_bodies,
                        live_colliders,
                        bp,
                        bc,
                    ).actions,
                    idx,
                    kind,
                );
            },
        }
    }
}

/// Single dispatch per index per tick: when the pass does not fault,
/// each joined entity gets exactly the one lifecycle operation its
/// union category prescribes, with priority create over update over
/// remove — one create on an insert event, one update on a modify
/// event, at most one remove on a remove event (none when no handle
/// was registered), and nothing at all for an untouched index.
pub proof fn lemma_single_dispatch(
    entities: Seq<EntityRecord>,
    colliders: Map<u32, u64>,
    bodies: Map<u32, u64>,
    live_bodies: Seq<u64>,
    live_colliders: Seq<u64>,
    bp: Seq<ChangeEvent>,
    bc: Seq<ChangeEvent>,
    j: int,
)
    requires
        0 <= j < entities.len(),
        forall|a: int, b: int|
            0 <= a < b < entities.len() ==> (#[trigger] entities[a]).index != (
            #[trigger] entities[b]).index,
        plan(entities, colliders, bodies, live_bodies, live_colliders, bp, bc).fault is None,
    ensures
        ({
            let idx = entities[j].index;
            let acts = plan(
                entities,
                colliders,
                bodies,
                live_bodies,
                live_colliders,
                bp,
                bc,
            ).actions;
            match union_kind(bp, bc, idx) {
                Some(ChangeKind::Inserted) => {
                    &&& dispatch_count(acts, idx, ChangeKind::Inserted) == 1
                    &&& dispatch_count(acts, idx, ChangeKind::Modified) == 0
                    &&& dispatch_count(acts, idx, ChangeKind::Removed) == 0
                },
                Some(ChangeKind::Modified) => {
                    &&& dispatch_count(acts, idx, ChangeKind::Inserted) == 0
                    &&& dispatch_count(acts, idx, ChangeKind::Modified) == 1
                    &&& dispatch_count(acts, idx, ChangeKind::Removed) == 0
                },
                Some(ChangeKind::Removed) => {
                    &&& dispatch_count(acts, idx, ChangeKind::Inserted) == 0
                    &&& dispatch_count(acts, idx, ChangeKind::Modified) == 0
                    &&& dispatch_count(acts, idx, ChangeKind::Removed) == (
                    if colliders.contains_key(idx) {
                        1nat
                    } else {
                        0nat
                    })
                },
                None => {
                    &&& dispatch_count(acts, idx, ChangeKind::Inserted) == 0
                    &&& dispatch_count(acts, idx, ChangeKind::Modified) == 0
                    &&& dispatch_count(acts, idx, ChangeKind::Removed) == 0
                },
            }
        }),
    decreases entities.len(),
{
    let idx = entities[j].index;
    let e = entities[0];
    let full = plan(entities, colliders, bodies, live_bodies, live_colliders, bp, bc);
    match entity_actions(colliders, bodies, live_bodies, live_colliders, bp, bc, e) {
        Err(_) => {
            assert(false);
        },
        Ok(acts) => {
            let after = crate::engine::entity_colliders_after(colliders, bp, bc, e);
            let rest = plan(
                entities.drop_first(),
                after,
                bodies,
                live_bodies,
                live_colliders,
                bp,
                bc,
            );
            lemma_dispatch_count_add(acts, rest.actions, idx, ChangeKind::Inserted);
            lemma_dispatch_count_add(acts, rest.actions, idx, ChangeKind::Modified);
            lemma_dispatch_count_add(acts, rest.actions, idx, ChangeKind::Removed);
            if j == 0 {
                match union_kind(bp, bc, idx) {
                    None => {},
                    Some(ChangeKind::Inserted) => {
                        if colliders.contains_key(idx) {
                            lemma_count_pair(acts[0], acts[1], idx, ChangeKind::Inserted);
                            lemma_count_pair(acts[0], acts[1], idx, ChangeKind::Modified);
                            lemma_count_pair(acts[0], acts[1], idx, ChangeKind::Removed);
                            assert(acts =~= seq![acts[0], acts[1]]);
                        } else {
                            lemma_count_singleton(acts[0], idx, ChangeKind::Inserted);
                            lemma_count_singleton(acts[0], idx, ChangeKind::Modified);
                            lemma_count_singleton(acts[0], idx, ChangeKind::Removed);
                            assert(acts =~= seq![acts[0]]);
                        }
                    },
                    Some(ChangeKind::Modified) => {
                        lemma_count_singleton(acts[0], idx, ChangeKind::Inserted);
                        lemma_count_singleton(acts[0], idx, ChangeKind::Modified);
                        lemma_count_singleton(acts[0], idx, ChangeKind::Removed);
                        assert(acts =~= seq![acts[0]]);
                    },
                    Some(ChangeKind::Removed) => {
                        if colliders.contains_key(idx) {
                            lemma_count_singleton(acts[0], idx, ChangeKind::Inserted);
                            lemma_count_singleton(acts[0], idx, ChangeKind::Modified);
                            lemma_count_singleton(acts[0], idx, ChangeKind::Removed);
                            assert(acts =~= seq![acts[0]]);
                        }
                    },
                }
                lemma_plan_foreign_counts(
                    entities.drop_first(),
                    after,
                    bodies,
                    live_bodies,
                    live_colliders,
                    bp,
                    bc,
                    idx,
                    ChangeKind::Inserted,
                );
                lemma_plan_foreign_counts(
                    entities.drop_first(),
                    after,
                    bodies,
                    live_bodies,
                    live_colliders,
                    bp,
                    bc,
                    idx,
                    ChangeKind::Modified,
                );
                lemma_plan_foreign_counts(
                    entities.drop_first(),
                    after,
                    bodies,
                    live_bodies,
                    live_colliders,
                    bp,
                    bc,
                    idx,
                    ChangeKind::Removed,
                );
            } else {
                match union_kind(bp, bc, e.index) {
                    None => {},
                    Some(ChangeKind::Inserted) => {
                        if colliders.contains_key(e.index) {
                            lemma_count_pair(acts[0], acts[1], idx, ChangeKind::Inserted);
                            lemma_count_pair(acts[0], acts[1], idx, ChangeKind::Modified);
                            lemma_count_pair(acts[0], acts[1], idx, ChangeKind::Removed);
                            assert(acts =~= seq![acts[0], acts[1]]);
                        } else {
                            lemma_count_singleton(acts[0], idx, ChangeKind::Inserted);
                            lemma_count_singleton(acts[0], idx, ChangeKind::Modified);
                            lemma_count_singleton(acts[0], idx, ChangeKind::Removed);
                            assert(acts =~= seq![acts[0]]);
                        }
                    },
                    Some(ChangeKind::Modified) => {
                        lemma_count_singleton(acts[0], idx, ChangeKind::Inserted);
                        lemma_count_singleton(acts[0], idx, ChangeKind::Modified);
                        lemma_count_singleton(acts[0], idx, ChangeKind::Removed);
                        assert(acts =~= seq![acts[0]]);
                    },
                    Some(ChangeKind::Removed) => {
                        if colliders.contains_key(e.index) {
                            lemma_count_singleton(acts[0], idx, ChangeKind::Inserted);
                            lemma_count_singleton(acts[0], idx, ChangeKind::Modified);
                            lemma_count_singleton(acts[0], idx, ChangeKind::Removed);
                            assert(acts =~= seq![acts[0]]);
                        }
                    },
                }
                assert(entities.drop_first()[j - 1] == entities[j]);
                lemma_single_dispatch(
                    entities.drop_first(),
                    after,
                    bodies,
                    live_bodies,
                    live_colliders,
                    bp,
                    bc,
                    j - 1,
                );
            }
        },
    }
}

/// Idempotent empty tick: with no change events drained, the pass
/// performs no operation at all, never faults, and leaves the
/// collider-handle mapping exactly as it was. Since every tick
/// advances both cursors to the end of their logs, a second tick with
/// no intervening component mutation drains empty batches and is such
/// a pass.
pub proof fn lemma_idempotent_empty_tick(
    entities: Seq<EntityRecord>,
    colliders: Map<u32, u64>,
    bodies: Map<u32, u64>,
    live_bodies: Seq<u64>,
    live_colliders: Seq<u64>,
)
    ensures
        ({
            let outcome = plan(
                entities,
                colliders,
                bodies,
                live_bodies,
                live_colliders,
                Seq::<ChangeEvent>::empty(),
                Seq::<ChangeEvent>::empty(),
            );
            &&& outcome.actions == Seq::<SyncAction>::empty()
            &&& outcome.colliders == colliders
            &&& outcome.fault is None
        }),
    decreases entities.len(),
{
    let bp = Seq::<ChangeEvent>::empty();
    if entities.len() > 0 {
        lemma_idempotent_empty_tick(
            entities.drop_first(),
            colliders,
            bodies,
            live_bodies,
            live_colliders,
        );
        let rest = plan(entities.drop_first(), colliders, bodies, live_bodies, live_colliders,
            bp, bp);
        assert(Seq::<SyncAction>::empty() + rest.actions =~= rest.actions);
    }
}

/// A cursor standing at the end of a log has nothing pending: the next
/// tick drains an empty batch.
pub proof fn lemma_drained_log_has_nothing_pending(log: Seq<ChangeEvent>)
    ensures
        pending(log, log.len() as int) == Seq::<ChangeEvent>::empty(),
{
    assert(pending(log, log.len() as int) =~= Seq::<ChangeEvent>::empty());
}

/// Cursor monotonicity: when a log grows from `log1` to `log2` between
/// two reads of the same cursor, what was pending before the first
/// read splits into the batch that read delivered and the batch the
/// second read delivers — consecutive ticks never redeliver the same
/// change event.
pub proof fn lemma_no_redelivery(log1: Seq<ChangeEvent>, log2: Seq<ChangeEvent>, pos: int)
    requires
        0 <= pos <= log1.len() <= log2.len(),
        log2.subrange(0, log1.len() as int) == log1,
    ensures
        pending(log2, pos) == pending(log1, pos) + pending(log2, log1.len() as int),
{
    assert forall|i: int| 0 <= i < log1.len() implies log2[i] == log1[i] by {
        assert(log2.subrange(0, log1.len() as int)[i] == log2[i]);
    }
    assert(pending(log2, pos) =~= pending(log1, pos) + pending(log2, log1.len() as int));
}

/// The three sets one extraction reports are pairwise disjoint: an
/// index has a single classification per batch.
pub proof fn lemma_event_sets_disjoint(sets: EventSets, batch: Seq<ChangeEvent>)
    requires
        sets.classifies(batch),
    ensures
        forall|i: u32|
            !(#[trigger] sets.inserted@.contains(i) && sets.modified@.contains(i)),
        forall|i: u32|
            !(#[trigger] sets.inserted@.contains(i) && sets.removed@.contains(i)),
        forall|i: u32|
            !(#[trigger] sets.modified@.contains(i) && sets.removed@.contains(i)),
{
}

/// Create populates the registry: a tick in which a fresh entity — no
/// registered collider handle — is newly inserted decides exactly one
/// creation for it, parented per the fallback chain, and leaves no
/// stale bookkeeping; recording the handle the world then assigns gives
/// the entity exactly one registry entry.
pub proof fn lemma_fresh_insert_creates(
    e: EntityRecord,
    colliders: Map<u32, u64>,
    bodies: Map<u32, u64>,
    live_bodies: Seq<u64>,
    live_colliders: Seq<u64>,
    bp: Seq<ChangeEvent>,
    bc: Seq<ChangeEvent>,
)
    requires
        union_kind(bp, bc, e.index) == Some(ChangeKind::Inserted),
        !colliders.contains_key(e.index),
    ensures
        ({
            let outcome = plan(seq![e], colliders, bodies, live_bodies, live_colliders, bp, bc);
            &&& outcome.fault is None
            &&& outcome.actions == seq![
                SyncAction::Create {
                    index: e.index,
                    parent: resolve_parent_spec(bodies, live_bodies, e.index, e.parent),
                },
            ]
            &&& outcome.colliders =~= colliders
        }),
{
    let create = SyncAction::Create {
        index: e.index,
        parent: resolve_parent_spec(bodies, live_bodies, e.index, e.parent),
    };
    assert(seq![e].drop_first() =~= Seq::<EntityRecord>::empty());
    let rest = plan(
        Seq::<EntityRecord>::empty(),
        colliders.remove(e.index),
        bodies,
        live_bodies,
        live_colliders,
        bp,
        bc,
    );
    assert(seq![create] + rest.actions =~= seq![create]);
    assert(colliders.remove(e.index) =~= colliders);
}

/// Ground fallback translation: when neither the entity nor its
/// optional parent has a body that is still live in the world, parent
/// resolution yields the world-anchored frame, under which the created
/// collider's translation is the entity's position plus the
/// descriptor's offset rather than the offset alone.
pub proof fn lemma_ground_fallback(
    bodies: Map<u32, u64>,
    live_bodies: Seq<u64>,
    index: u32,
    parent: Option<u32>,
)
    requires
        bodies.contains_key(index) ==> !live_bodies.contains(bodies[index]),
        (match parent {
            Some(p) => bodies.contains_key(p) ==> !live_bodies.contains(bodies[p]),
            None => true,
        }),
    ensures
        resolve_parent_spec(bodies, live_bodies, index, parent) == BodyPartRef::Ground,
{
}

/// Attached placement: when the entity's own registered body is still
/// live, parent resolution yields that body's part, under which the
/// created collider's translation is the descriptor's offset alone,
/// independent of the entity's position.
pub proof fn lemma_attached_placement(
    bodies: Map<u32, u64>,
    live_bodies: Seq<u64>,
    index: u32,
    parent: Option<u32>,
)
    requires
        bodies.contains_key(index),
        live_bodies.contains(bodies[index]),
    ensures
        resolve_parent_spec(bodies, live_bodies, index, parent) == BodyPartRef::Part(
            bodies[index],
        ),
{
}

/// Defensive removal: a remove event for an entity whose collider the
/// physics world already deleted on its own does not fault; the handle
/// is deregistered either way and the world is told not to touch the
/// vanished collider.
pub proof fn lemma_defensive_removal(
    e: EntityRecord,
    colliders: Map<u32, u64>,
    bodies: Map<u32, u64>,
    live_bodies: Seq<u64>,
    live_colliders: Seq<u64>,
    bp: Seq<ChangeEvent>,
    bc: Seq<ChangeEvent>,
)
    requires
        union_kind(bp, bc, e.index) == Some(ChangeKind::Removed),
        colliders.contains_key(e.index),
        !live_colliders.contains(colliders[e.index]),
    ensures
        ({
            let outcome = plan(seq![e], colliders, bodies, live_bodies, live_colliders, bp, bc);
            &&& outcome.fault is None
            &&& outcome.actions == seq![
                SyncAction::Remove { index: e.index, handle: colliders[e.index], in_world: false },
            ]
            &&& !outcome.colliders.contains_key(e.index)
        }),
{
    let act = SyncAction::Remove {
        index: e.index,
        handle: colliders[e.index],
        in_world: false,
    };
    assert(seq![e].drop_first() =~= Seq::<EntityRecord>::empty());
    let rest = plan(
        Seq::<EntityRecord>::empty(),
        colliders.remove(e.index),
        bodies,
        live_bodies,
        live_colliders,
        bp,
        bc,
    );
    assert(seq![act] + rest.actions =~= seq![act]);
}

/// Update scope: a modify event for an entity with a registered handle
/// decides exactly one update action, which propagates only the
/// collision-group bitmask to that handle; no creation, no removal, no
/// orphan clean-up, and the registry is left untouched, so shape,
/// material and placement of the live collider are unchanged.
pub proof fn lemma_update_scope(
    e: EntityRecord,
    colliders: Map<u32, u64>,
    bodies: Map<u32, u64>,
    live_bodies: Seq<u64>,
    live_colliders: Seq<u64>,
    bp: Seq<ChangeEvent>,
    bc: Seq<ChangeEvent>,
)
    requires
        union_kind(bp, bc, e.index) == Some(ChangeKind::Modified),
        colliders.contains_key(e.index),
    ensures
        ({
            let outcome = plan(seq![e], colliders, bodies, live_bodies, live_colliders, bp, bc);
            &&& outcome.fault is None
            &&& outcome.actions == seq![
                SyncAction::Update { index: e.index, handle: colliders[e.index] },
            ]
            &&& outcome.colliders == colliders
        }),
{
    let act = SyncAction::Update { index: e.index, handle: colliders[e.index] };
    assert(seq![e].drop_first() =~= Seq::<EntityRecord>::empty());
    let rest = plan(
        Seq::<EntityRecord>::empty(),
        colliders,
        bodies,
        live_bodies,
        live_colliders,
        bp,
        bc,
    );
    assert(seq![act] + rest.actions =~= seq![act]);
}

} // verus!
