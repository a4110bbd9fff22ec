//! Synchronisation of per-entity collider components into an external
//! physics world.
//!
//! Game code edits position and collider-descriptor components freely;
//! once per tick the [`engine::ColliderSyncEngine`] drains the change
//! events recorded on both component stores, joins them with the entities
//! that currently carry both components, and decides, for each affected
//! entity index, exactly one of: create a collider, update its collision
//! groups, or remove it. The decisions are returned as a list of
//! [`engine::SyncAction`]s for the caller to apply to the physics world,
//! and the [`registry::HandleRegistry`] bookkeeping is updated in the
//! same pass.

pub mod engine;
pub mod events;
pub mod laws;
pub mod registry;
pub mod world_view;
