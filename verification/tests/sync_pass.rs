//! End-to-end tests of the per-tick synchronisation pass.

use collider_sync::engine::{BodyPartRef, ColliderSyncEngine, EntityRecord, SyncAction, SyncError};
use collider_sync::events::{ChangeEvent, EventChannel};
use collider_sync::registry::HandleRegistry;
use collider_sync::world_view::WorldView;

fn entity(index: u32) -> EntityRecord {
    EntityRecord { index, parent: None }
}

fn child(index: u32, parent: u32) -> EntityRecord {
    EntityRecord {
        index,
        parent: Some(parent),
    }
}

#[test]
fn fresh_insert_creates_collider() {
    let mut positions = EventChannel::new();
    let mut colliders = EventChannel::new();
    let mut engine = ColliderSyncEngine::new(&positions, &colliders);
    let mut registry = HandleRegistry::new();
    let world = WorldView::new();

    positions.record(ChangeEvent::Inserted(7));
    colliders.record(ChangeEvent::Inserted(7));
    let entities = vec![entity(7)];

    let actions = engine
        .tick(&positions, &colliders, &entities, &world, &mut registry)
        .unwrap();
    assert_eq!(
        actions,
        vec![SyncAction::Create {
            index: 7,
            parent: BodyPartRef::Ground,
        }]
    );

    // The caller applies the creation and records the world's handle.
    registry.record_collider(7, 11);
    assert_eq!(registry.collider_count(), 1);
    assert_eq!(registry.collider_handle(7), Some(11));
}

#[test]
fn empty_tick_is_noop() {
    let mut positions = EventChannel::new();
    let mut colliders = EventChannel::new();
    let mut engine = ColliderSyncEngine::new(&positions, &colliders);
    let mut registry = HandleRegistry::new();
    let world = WorldView::new();

    positions.record(ChangeEvent::Inserted(7));
    colliders.record(ChangeEvent::Inserted(7));
    let entities = vec![entity(7)];
    let first = engine
        .tick(&positions, &colliders, &entities, &world, &mut registry)
        .unwrap();
    assert_eq!(first.len(), 1);
    registry.record_collider(7, 11);

    // No component was mutated in between: the second pass does nothing.
    let second = engine
        .tick(&positions, &colliders, &entities, &world, &mut registry)
        .unwrap();
    assert_eq!(second, vec![]);
    assert_eq!(registry.collider_count(), 1);
    assert_eq!(registry.collider_handle(7), Some(11));
}

#[test]
fn insert_beats_modify_across_stores() {
    let mut positions = EventChannel::new();
    let mut colliders = EventChannel::new();
    let mut engine = ColliderSyncEngine::new(&positions, &colliders);
    let mut registry = HandleRegistry::new();
    let world = WorldView::new();

    // The position store says modified, the collider store says
    // inserted: one single create is dispatched.
    positions.record(ChangeEvent::Modified(5));
    colliders.record(ChangeEvent::Inserted(5));
    let entities = vec![entity(5)];

    let actions = engine
        .tick(&positions, &colliders, &entities, &world, &mut registry)
        .unwrap();
    assert_eq!(
        actions,
        vec![SyncAction::Create {
            index: 5,
            parent: BodyPartRef::Ground,
        }]
    );
}

#[test]
fn remove_dominates_insert_within_batch() {
    let mut positions = EventChannel::new();
    let mut colliders = EventChannel::new();
    let mut engine = ColliderSyncEngine::new(&positions, &colliders);
    let mut registry = HandleRegistry::new();
    let mut world = WorldView::new();

    registry.record_collider(3, 9);
    world.note_collider(9);

    // Inserted and then removed in the same batch: only the removal is
    // dispatched, so no collider is created just to vanish again.
    colliders.record(ChangeEvent::Inserted(3));
    colliders.record(ChangeEvent::Removed(3));
    let entities = vec![entity(3)];

    let actions = engine
        .tick(&positions, &colliders, &entities, &world, &mut registry)
        .unwrap();
    assert_eq!(
        actions,
        vec![SyncAction::Remove {
            index: 3,
            handle: 9,
            in_world: true,
        }]
    );
    assert_eq!(registry.collider_count(), 0);
}

#[test]
fn ground_fallback_when_body_is_stale() {
    let mut positions = EventChannel::new();
    let mut colliders = EventChannel::new();
    let mut engine = ColliderSyncEngine::new(&positions, &colliders);
    let mut registry = HandleRegistry::new();
    let world = WorldView::new();

    // A body handle is registered but the body is gone from the world:
    // the collider is anchored to the world frame, whose translation is
    // position plus offset.
    registry.insert_body(7, 42);
    colliders.record(ChangeEvent::Inserted(7));
    let entities = vec![entity(7)];

    let actions = engine
        .tick(&positions, &colliders, &entities, &world, &mut registry)
        .unwrap();
    assert_eq!(
        actions,
        vec![SyncAction::Create {
            index: 7,
            parent: BodyPartRef::Ground,
        }]
    );
}

#[test]
fn attached_placement_uses_live_body() {
    let mut positions = EventChannel::new();
    let mut colliders = EventChannel::new();
    let mut engine = ColliderSyncEngine::new(&positions, &colliders);
    let mut registry = HandleRegistry::new();
    let mut world = WorldView::new();

    registry.insert_body(7, 42);
    world.note_body(42);
    colliders.record(ChangeEvent::Inserted(7));
    let entities = vec![entity(7)];

    let actions = engine
        .tick(&positions, &colliders, &entities, &world, &mut registry)
        .unwrap();
    assert_eq!(
        actions,
        vec![SyncAction::Create {
            index: 7,
            parent: BodyPartRef::Part(42),
        }]
    );
}

#[test]
fn attached_placement_falls_back_to_parent_entity() {
    let mut positions = EventChannel::new();
    let mut colliders = EventChannel::new();
    let mut engine = ColliderSyncEngine::new(&positions, &colliders);
    let mut registry = HandleRegistry::new();
    let mut world = WorldView::new();

    // Entity 8 has no body of its own; its parent entity 7 has a live
    // one, so the collider is parented to that body.
    registry.insert_body(7, 42);
    world.note_body(42);
    colliders.record(ChangeEvent::Inserted(8));
    let entities = vec![child(8, 7)];

    let actions = engine
        .tick(&positions, &colliders, &entities, &world, &mut registry)
        .unwrap();
    assert_eq!(
        actions,
        vec![SyncAction::Create {
            index: 8,
            parent: BodyPartRef::Part(42),
        }]
    );
}

#[test]
fn defensive_removal_of_vanished_collider() {
    let mut positions = EventChannel::new();
    let mut colliders = EventChannel::new();
    let mut engine = ColliderSyncEngine::new(&positions, &colliders);
    let mut registry = HandleRegistry::new();
    let world = WorldView::new();

    // The collider's parent body was destroyed and the world deleted
    // the collider with it; the removal must not fault and must leave
    // no registry entry behind.
    registry.record_collider(4, 99);
    colliders.record(ChangeEvent::Removed(4));
    let entities = vec![entity(4)];

    let actions = engine
        .tick(&positions, &colliders, &entities, &world, &mut registry)
        .unwrap();
    assert_eq!(
        actions,
        vec![SyncAction::Remove {
            index: 4,
            handle: 99,
            in_world: false,
        }]
    );
    assert_eq!(registry.collider_count(), 0);
    assert_eq!(registry.collider_handle(4), None);
}

#[test]
fn removal_without_registered_handle_is_noop() {
    let mut positions = EventChannel::new();
    let mut colliders = EventChannel::new();
    let mut engine = ColliderSyncEngine::new(&positions, &colliders);
    let mut registry = HandleRegistry::new();
    let world = WorldView::new();

    colliders.record(ChangeEvent::Removed(8));
    let entities = vec![entity(8)];

    let actions = engine
        .tick(&positions, &colliders, &entities, &world, &mut registry)
        .unwrap();
    assert_eq!(actions, vec![]);
}

#[test]
fn update_propagates_only_collision_groups() {
    let mut positions = EventChannel::new();
    let mut colliders = EventChannel::new();
    let mut engine = ColliderSyncEngine::new(&positions, &colliders);
    let mut registry = HandleRegistry::new();
    let world = WorldView::new();

    registry.record_collider(6, 13);
    colliders.record(ChangeEvent::Modified(6));
    let entities = vec![entity(6)];

    let actions = engine
        .tick(&positions, &colliders, &entities, &world, &mut registry)
        .unwrap();
    assert_eq!(
        actions,
        vec![SyncAction::Update {
            index: 6,
            handle: 13,
        }]
    );
    // The registry is untouched: no recreation happened.
    assert_eq!(registry.collider_count(), 1);
    assert_eq!(registry.collider_handle(6), Some(13));
}

#[test]
fn update_without_handle_faults() {
    let mut positions = EventChannel::new();
    let mut colliders = EventChannel::new();
    let mut engine = ColliderSyncEngine::new(&positions, &colliders);
    let mut registry = HandleRegistry::new();
    let world = WorldView::new();

    positions.record(ChangeEvent::Modified(9));
    let entities = vec![entity(9)];

    let result = engine.tick(&positions, &colliders, &entities, &world, &mut registry);
    assert_eq!(result, Err(SyncError::MissingColliderHandle(9)));
}

#[test]
fn stale_handle_is_discarded_before_creation() {
    let mut positions = EventChannel::new();
    let mut colliders = EventChannel::new();
    let mut engine = ColliderSyncEngine::new(&positions, &colliders);
    let mut registry = HandleRegistry::new();
    let world = WorldView::new();

    // An insert event arrives although a handle is still registered:
    // the orphan is deregistered and force-removed, then the creation
    // proceeds.
    registry.record_collider(7, 33);
    colliders.record(ChangeEvent::Inserted(7));
    let entities = vec![entity(7)];

    let actions = engine
        .tick(&positions, &colliders, &entities, &world, &mut registry)
        .unwrap();
    assert_eq!(
        actions,
        vec![
            SyncAction::RemoveOrphan {
                index: 7,
                handle: 33,
            },
            SyncAction::Create {
                index: 7,
                parent: BodyPartRef::Ground,
            },
        ]
    );
    assert_eq!(registry.collider_handle(7), None);
}

#[test]
fn consecutive_ticks_never_redeliver() {
    let mut positions = EventChannel::new();
    let mut colliders = EventChannel::new();
    let mut engine = ColliderSyncEngine::new(&positions, &colliders);
    let mut registry = HandleRegistry::new();
    let world = WorldView::new();

    colliders.record(ChangeEvent::Inserted(2));
    let entities = vec![entity(2)];
    let first = engine
        .tick(&positions, &colliders, &entities, &world, &mut registry)
        .unwrap();
    assert_eq!(
        first,
        vec![SyncAction::Create {
            index: 2,
            parent: BodyPartRef::Ground,
        }]
    );
    registry.record_collider(2, 5);

    // Only the new modify event is delivered; the old insert event is
    // not seen again, so no second creation happens.
    colliders.record(ChangeEvent::Modified(2));
    let second = engine
        .tick(&positions, &colliders, &entities, &world, &mut registry)
        .unwrap();
    assert_eq!(second, vec![SyncAction::Update { index: 2, handle: 5 }]);
}

#[test]
fn events_without_joined_entity_do_nothing() {
    let mut positions = EventChannel::new();
    let mut colliders = EventChannel::new();
    let mut engine = ColliderSyncEngine::new(&positions, &colliders);
    let mut registry = HandleRegistry::new();
    let world = WorldView::new();

    // The affected entity carries no collider component any more, so
    // the join is empty and nothing is dispatched.
    positions.record(ChangeEvent::Inserted(5));
    let entities: Vec<EntityRecord> = vec![];

    let actions = engine
        .tick(&positions, &colliders, &entities, &world, &mut registry)
        .unwrap();
    assert_eq!(actions, vec![]);
}

#[test]
fn two_entities_one_tick() {
    let mut positions = EventChannel::new();
    let mut colliders = EventChannel::new();
    let mut engine = ColliderSyncEngine::new(&positions, &colliders);
    let mut registry = HandleRegistry::new();
    let mut world = WorldView::new();

    registry.record_collider(1, 21);
    world.note_collider(21);
    colliders.record(ChangeEvent::Inserted(2));
    positions.record(ChangeEvent::Removed(1));
    let entities = vec![entity(1), entity(2)];

    let actions = engine
        .tick(&positions, &colliders, &entities, &world, &mut registry)
        .unwrap();
    assert_eq!(
        actions,
        vec![
            SyncAction::Remove {
                index: 1,
                handle: 21,
                in_world: true,
            },
            SyncAction::Create {
                index: 2,
                parent: BodyPartRef::Ground,
            },
        ]
    );
    assert_eq!(registry.collider_count(), 0);
}
