//! Change events, event logs, cursors and the change-event extractor.
//!
//! A component store records one [`ChangeEvent`] per mutation. Each
//! consumer owns a [`Cursor`] into the store's [`EventChannel`];
//! [`extract_events`] drains everything recorded since the cursor's last
//! read, partitions the drained batch into three disjoint index sets, and
//! advances the cursor to the end of the log.

use vstd::prelude::*;

verus! {

broadcast use vstd::seq_lib::group_seq_properties;

/// One change notification recorded by a component store: what happened,
/// and the index of the affected entity.
#[derive(Clone, Copy, PartialEq, Eq, Structural, Debug)]
pub enum ChangeEvent {
    /// The component was added to the entity.
    Inserted(u32),
    /// The component's value was mutated.
    Modified(u32),
    /// The component was taken off the entity.
    Removed(u32),
}

/// The classification of an entity index over one drained batch of
/// events: the single category the index is reported under.
#[derive(Clone, Copy, PartialEq, Eq, Structural, Debug)]
pub enum ChangeKind {
    /// The index belongs to the inserted set.
    Inserted,
    /// The index belongs to the modified set.
    Modified,
    /// The index belongs to the removed set.
    Removed,
}

/// The entity index an event speaks of.
pub open spec fn event_index(e: ChangeEvent) -> u32 {
    match e {
        ChangeEvent::Inserted(i) => i,
        ChangeEvent::Modified(i) => i,
        ChangeEvent::Removed(i) => i,
    }
}

/// How one further event for an index refines the classification the
/// index had so far in the same batch.
///
/// An insertion always classifies the index as inserted, and a removal
/// always as removed, so a removal recorded after an insertion dominates
/// it and the reverse as well; a modification never overrides either of
/// the two lifecycle categories, it only marks an index that was so far
/// unclassified or already modified.
pub open spec fn step_kind(prev: Option<ChangeKind>, e: ChangeEvent) -> Option<ChangeKind> {
    match e {
        ChangeEvent::Inserted(_) => Some(ChangeKind::Inserted),
        ChangeEvent::Modified(_) => match prev {
            Some(ChangeKind::Inserted) => Some(ChangeKind::Inserted),
            Some(ChangeKind::Removed) => Some(ChangeKind::Removed),
            _ => Some(ChangeKind::Modified),
        },
        ChangeEvent::Removed(_) => Some(ChangeKind::Removed),
    }
}

/// The final classification of `idx` over `batch`: `None` when no event
/// in the batch speaks of `idx`, otherwise the fold of [`step_kind`]
/// over the events for `idx`, in the order they were recorded.
pub open spec fn classify(batch: Seq<ChangeEvent>, idx: u32) -> Option<ChangeKind>
    decreases batch.len(),
{
    if batch.len() == 0 {
        None
    } else {
        let prev = classify(batch.drop_last(), idx);
        if event_index(batch.last()) == idx {
            step_kind(prev, batch.last())
        } else {
            prev
        }
    }
}

/// The events of `log` not yet read by a cursor standing at `pos`.
pub open spec fn pending(log: Seq<ChangeEvent>, pos: int) -> Seq<ChangeEvent>
    recommends
        0 <= pos <= log.len(),
{
    log.subrange(pos, log.len() as int)
}

/// An append-only log of the change events recorded on one component
/// store.
pub struct EventChannel {
    events: Vec<ChangeEvent>,
}

/// A reader offset into one [`EventChannel`], owned by one consumer.
/// It only ever advances; it is reset solely by registering a new
/// cursor.
pub struct Cursor {
    pos: usize,
}

impl Cursor {
    /// The offset of the first event this cursor has not read yet.
    pub closed spec fn position(&self) -> int {
        self.pos as int
    }

    /// The offset of the first event this cursor has not read yet, for
    /// callers that need to compare it against a log's length.
    pub fn offset(&self) -> (n: usize)
        ensures
            n == self.position(),
    {
        self.pos
    }
}

impl EventChannel {
    /// The events recorded so far, oldest first.
    pub closed spec fn log(&self) -> Seq<ChangeEvent> {
        self.events@
    }

    /// An empty log.
    pub fn new() -> (r: Self)
        ensures
            r.log() == Seq::<ChangeEvent>::empty(),
    {
        EventChannel { events: Vec::new() }
    }

    /// Records one change event at the end of the log.
    pub fn record(&mut self, e: ChangeEvent)
        ensures
            final(self).log() == old(self).log().push(e),
    {
        self.events.push(e);
    }

    /// How many events the log holds.
    pub fn len(&self) -> (n: usize)
        ensures
            n == self.log().len(),
    {
        self.events.len()
    }

    /// A new cursor standing at the current end of the log, so that it
    /// observes exactly the events recorded after registration.
    pub fn register_cursor(&self) -> (c: Cursor)
        ensures
            c.position() == self.log().len(),
    {
        Cursor { pos: self.events.len() }
    }
}

/// The three disjoint index sets one extraction pass reports.
pub struct EventSets {
    /// Indices classified as inserted.
    pub inserted: Vec<u32>,
    /// Indices classified as modified.
    pub modified: Vec<u32>,
    /// Indices classified as removed.
    pub removed: Vec<u32>,
}

impl EventSets {
    /// The sets list exactly the indices that `batch` classifies, each
    /// under its [`classify`] category. Disjointness of the three sets
    /// follows, since an index has a single classification.
    pub open spec fn classifies(self, batch: Seq<ChangeEvent>) -> bool {
        &&& forall|i: u32|
            #[trigger] self.inserted@.contains(i) <==> classify(batch, i) == Some(
                ChangeKind::Inserted,
            )
        &&& forall|i: u32|
            #[trigger] self.modified@.contains(i) <==> classify(batch, i) == Some(
                ChangeKind::Modified,
            )
        &&& forall|i: u32|
            #[trigger] self.removed@.contains(i) <==> classify(batch, i) == Some(
                ChangeKind::Removed,
            )
    }
}

/// Drains every event recorded on `channel` since `cursor`'s last read,
/// advances the cursor to the end of the log, and partitions the drained
/// batch into the three disjoint index sets of [`EventSets`], one
/// category per index, per [`classify`].
pub fn extract_events(channel: &EventChannel, cursor: &mut Cursor) -> (sets: EventSets)
    requires
        old(cursor).position() <= channel.log().len(),
    ensures
        final(cursor).position() == channel.log().len(),
        sets.classifies(pending(channel.log(), old(cursor).position())),
{
    let ghost batch = pending(channel.log(), old(cursor).position());
    let start = cursor.pos;
    let end = channel.events.len();
    let mut assoc: Vec<(u32, ChangeKind)> = Vec::new();
    let mut k = start;
    while k < end
        invariant
            start <= k <= end,
            end == channel.log().len(),
            batch == pending(channel.log(), start as int),
            forall|j: int|
                0 <= j < assoc.len() ==> classify(
                    batch.take(k - start),
                    (#[trigger] assoc@[j]).0,
                ) == Some(assoc@[j].1),
            forall|i: u32|
                (#[trigger] classify(batch.take(k - start), i)) is Some ==> exists|j: int|
                    0 <= j < assoc.len() && (#[trigger] assoc@[j]).0 == i,
            forall|j1: int, j2: int|
                0 <= j1 < j2 < assoc.len() ==> (#[trigger] assoc@[j1]).0 != (
                #[trigger] assoc@[j2]).0,
        decreases end - k,
    {
        let e = channel.events[k];
        proof {
            assert(batch.take(k + 1 - start).drop_last() =~= batch.take(k - start));
            assert(batch.take(k + 1 - start).last() == e);
        }
        let idx = match e {
            ChangeEvent::Inserted(i) => i,
            ChangeEvent::Modified(i) => i,
            ChangeEvent::Removed(i) => i,
        };
        let mut found = false;
        let mut f: usize = 0;
        while !found && f < assoc.len()
            invariant
                0 <= f <= assoc.len(),
                forall|t: int| 0 <= t < f ==> (#[trigger] assoc@[t]).0 != idx,
                found ==> f < assoc.len() && assoc@[f as int].0 == idx,
            decreases assoc.len() - f, (if found { 0int } else { 1int }),
        {
            if assoc[f].0 == idx {
                found = true;
            } else {
                f += 1;
            }
        }
        let prev: Option<ChangeKind> = if found {
            Some(assoc[f].1)
        } else {
            None
        };
        let next = match e {
            ChangeEvent::Inserted(_) => ChangeKind::Inserted,
            ChangeEvent::Modified(_) => match prev {
                Some(ChangeKind::Inserted) => ChangeKind::Inserted,
                Some(ChangeKind::Removed) => ChangeKind::Removed,
                _ => ChangeKind::Modified,
            },
            ChangeEvent::Removed(_) => ChangeKind::Removed,
        };
        let ghost assoc0 = assoc@;
        if found {
            assoc[f] = (idx, next);
        } else {
            assoc.push((idx, next));
        }
        proof {
            assert forall|i: u32| (#[trigger] classify(batch.take(k + 1 - start), i)) is Some
                implies exists|j: int| 0 <= j < assoc.len() && (#[trigger] assoc@[j]).0 == i by {
                if i == idx {
                    if found {
                        assert(assoc@[f as int].0 == idx);
                    } else {
                        assert(assoc@[assoc0.len() as int].0 == idx);
                    }
                } else {
                    assert(classify(batch.take(k - start), i) is Some);
                    let w = choose|j: int| 0 <= j < assoc0.len() && (#[trigger] assoc0[j]).0 == i;
                    assert(assoc@[w].0 == i);
                }
            }
        }
        k += 1;
    }
    proof {
        assert(batch.take(end - start) =~= batch);
    }
    cursor.pos = end;
    let mut sets = EventSets { inserted: Vec::new(), modified: Vec::new(), removed: Vec::new() };
    let mut j: usize = 0;
    while j < assoc.len()
        invariant
            0 <= j <= assoc.len(),
            forall|t: int|
                0 <= t < assoc.len() ==> classify(batch, (#[trigger] assoc@[t]).0) == Some(
                    assoc@[t].1,
                ),
            forall|i: u32|
                (#[trigger] classify(batch, i)) is Some ==> exists|t: int|
                    0 <= t < assoc.len() && (#[trigger] assoc@[t]).0 == i,
            forall|i: u32|
                #[trigger] sets.inserted@.contains(i) <==> exists|t: int|
                    0 <= t < j && (#[trigger] assoc@[t]) == (i, ChangeKind::Inserted),
            forall|i: u32|
                #[trigger] sets.modified@.contains(i) <==> exists|t: int|
                    0 <= t < j && (#[trigger] assoc@[t]) == (i, ChangeKind::Modified),
            forall|i: u32|
                #[trigger] sets.removed@.contains(i) <==> exists|t: int|
                    0 <= t < j && (#[trigger] assoc@[t]) == (i, ChangeKind::Removed),
        decreases assoc.len() - j,
    {
        let (i, kd) = assoc[j];
        match kd {
            ChangeKind::Inserted => sets.inserted.push(i),
            ChangeKind::Modified => sets.modified.push(i),
            ChangeKind::Removed => sets.removed.push(i),
        }
        j += 1;
    }
    sets
}

} // verus!
