//! What holds of the log and of mirrored storage across calls.
use crate::event_log::EventLog;
use crate::mirrored::{describes, replay, Change, MirroredStorage};
use crate::policy::{ChangeEvent, Mirrored, Snapshot};
use crate::storage::SlotStorage;
use vstd::prelude::*;

verus! {

/// The slot-to-value map a consumer rebuilds from snapshot events: an
/// insertion stores its copy, a removal clears its slot.
pub open spec fn replay_snapshots<C>(events: Seq<ChangeEvent<(u32, C)>>) -> Map<u32, C>
    decreases events.len(),
{
    if events.len() == 0 {
        Map::empty()
    } else {
        let m = replay_snapshots(events.drop_last());
        match events.last() {
            ChangeEvent::Inserted(p) => m.insert(p.0, p.1),
            ChangeEvent::Removed(p) => m.remove(p.0),
        }
    }
}

/// Copies of `C` are exact.
pub open spec fn exact_clone<C: Clone>() -> bool {
    forall|a: C, b: C| #[trigger] cloned(a, b) ==> a == b
}

proof fn lemma_replay_snapshots<C: Clone>(
    changes: Seq<Change<C>>,
    events: Seq<ChangeEvent<(u32, C)>>,
)
    requires
        exact_clone::<C>(),
        changes.len() == events.len(),
        forall|i: int|
            0 <= i < changes.len() ==> describes::<C, Snapshot>(#[trigger] changes[i], events[i]),
    ensures
        replay_snapshots(events) == replay(changes),
    decreases changes.len(),
{
    if changes.len() > 0 {
        let n = changes.len() - 1;
        lemma_replay_snapshots(changes.drop_last(), events.drop_last());
        assert(describes::<C, Snapshot>(changes[n], events[n]));
    }
}

/// A reader registered when the storage was created receives every event
/// published since; with snapshot payloads whose copies are exact, replaying
/// them rebuilds exactly the components held, whatever sequence of
/// insertions, removals and tracked updates came before.
pub proof fn law_replay_reconstructs<C: Clone, S: SlotStorage<C>>(
    s: MirroredStorage<C, Snapshot, S>,
)
    requires
        s.wf(),
        s.in_sync(),
        exact_clone::<C>(),
    ensures
        s.log().first() == 0 ==> s.log().pending(0) == s.events(),
        replay_snapshots(s.events()) == s.view(),
{
    lemma_replay_snapshots(s.changes(), s.events());
    assert(s.events().subrange(0, s.events().len() as int) =~= s.events());
}

/// A removal event under the snapshot policy carries the slot and a copy of
/// the value exactly as it was when it was taken out.
pub proof fn law_removal_snapshot<C: Clone, S: SlotStorage<C>>(
    s: MirroredStorage<C, Snapshot, S>,
    i: int,
)
    requires
        s.wf(),
        0 <= i < s.events().len(),
        s.events()[i] is Removed,
    ensures
        !s.changes()[i].inserted,
        s.events()[i]->Removed_0.0 == s.changes()[i].slot,
        cloned(s.changes()[i].value, s.events()[i]->Removed_0.1),
{
    assert(describes::<C, Snapshot>(s.changes()[i], s.events()[i]));
}

/// A cursor taken when the log held `n` events receives none of those `n`,
/// only the ones appended later (as long as they are still retained).
pub proof fn law_late_cursor<E>(before: EventLog<E>, after: EventLog<E>)
    requires
        before.history().is_prefix_of(after.history()),
        after.first() <= before.total(),
    ensures
        after.pending(before.total()) == after.history().subrange(
            before.total() as int,
            after.total() as int,
        ),
        forall|i: int|
            0 <= i < after.pending(before.total()).len() ==> after.pending(before.total())[i]
                == after.history()[before.total() + i],
{
}

/// Two cursors of one log each receive their own suffix of it: the later
/// cursor's events are the tail of the earlier one's. Reading through one
/// cursor leaves the log, and so every other cursor, as it was.
pub proof fn law_cursors_independent<E>(log: EventLog<E>, p1: nat, p2: nat)
    requires
        p1 <= p2 <= log.total(),
    ensures
        log.pending(p1) == log.history().subrange(log.clamp(p1) as int, log.total() as int),
        log.pending(p2) == log.history().subrange(log.clamp(p2) as int, log.total() as int),
        log.pending(p2) == log.pending(p1).subrange(
            log.pending(p1).len() - log.pending(p2).len(),
            log.pending(p1).len() as int,
        ),
{
    assert(log.pending(p2) =~= log.pending(p1).subrange(
        log.pending(p1).len() - log.pending(p2).len(),
        log.pending(p1).len() as int,
    ));
}

} // verus!
