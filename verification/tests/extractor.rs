//! Tests of the change-event extractor: draining, partitioning with the
//! dominance rules, and cursor behaviour.

use collider_sync::events::{extract_events, ChangeEvent, EventChannel};

#[test]
fn dominance_rules_within_one_batch() {
    let mut channel = EventChannel::new();
    let mut cursor = channel.register_cursor();

    // 1: inserted then modified -> inserted dominates.
    channel.record(ChangeEvent::Inserted(1));
    channel.record(ChangeEvent::Modified(1));
    // 2: modified then removed -> removed dominates.
    channel.record(ChangeEvent::Modified(2));
    channel.record(ChangeEvent::Removed(2));
    // 3: inserted then removed -> removed dominates.
    channel.record(ChangeEvent::Inserted(3));
    channel.record(ChangeEvent::Removed(3));
    // 4: plain modification.
    channel.record(ChangeEvent::Modified(4));

    let sets = extract_events(&channel, &mut cursor);
    assert_eq!(sets.inserted, vec![1]);
    assert_eq!(sets.modified, vec![4]);
    assert_eq!(sets.removed, vec![2, 3]);
}

#[test]
fn empty_log_yields_empty_sets() {
    let channel = EventChannel::new();
    let mut cursor = channel.register_cursor();
    let sets = extract_events(&channel, &mut cursor);
    assert!(sets.inserted.is_empty());
    assert!(sets.modified.is_empty());
    assert!(sets.removed.is_empty());
}

#[test]
fn cursor_only_sees_events_after_registration() {
    let mut channel = EventChannel::new();
    channel.record(ChangeEvent::Inserted(1));
    let mut cursor = channel.register_cursor();
    channel.record(ChangeEvent::Inserted(2));

    let sets = extract_events(&channel, &mut cursor);
    assert_eq!(sets.inserted, vec![2]);
}

#[test]
fn second_extraction_drains_nothing() {
    let mut channel = EventChannel::new();
    let mut cursor = channel.register_cursor();
    channel.record(ChangeEvent::Inserted(1));

    let first = extract_events(&channel, &mut cursor);
    assert_eq!(first.inserted, vec![1]);

    let second = extract_events(&channel, &mut cursor);
    assert!(second.inserted.is_empty());
    assert!(second.modified.is_empty());
    assert!(second.removed.is_empty());
}

#[test]
fn independent_cursors_see_the_full_stream() {
    let mut channel = EventChannel::new();
    let mut first = channel.register_cursor();
    let mut second = channel.register_cursor();
    channel.record(ChangeEvent::Inserted(1));

    let sets_first = extract_events(&channel, &mut first);
    let sets_second = extract_events(&channel, &mut second);
    assert_eq!(sets_first.inserted, vec![1]);
    assert_eq!(sets_second.inserted, vec![1]);
}
