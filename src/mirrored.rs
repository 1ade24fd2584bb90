//! The change-tracking storage: a slot store whose insertions, removals and
//! tracked updates are published to an event log.
use crate::event_log::EventLog;
use crate::policy::{ChangeEvent, Mirrored};
use crate::storage::{bits_of, SlotStorage, VecStorage};
use hibitset::BitSet;
use vstd::prelude::*;

verus! {

/// One transition of a slot, with the value it concerned.
pub struct Change<C> {
    /// Whether the value was stored (else taken out).
    pub inserted: bool,
    /// The slot concerned.
    pub slot: u32,
    /// The value stored or taken out.
    pub value: C,
}

/// The slot-to-value map obtained by applying `changes` in order to an empty map.
pub open spec fn replay<C>(changes: Seq<Change<C>>) -> Map<u32, C>
    decreases changes.len(),
{
    if changes.len() == 0 {
        Map::empty()
    } else {
        let c = changes.last();
        let m = replay(changes.drop_last());
        if c.inserted {
            m.insert(c.slot, c.value)
        } else {
            m.remove(c.slot)
        }
    }
}

/// Per slot, insertions and removals strictly alternate, starting with an
/// insertion: each change inserts into an empty slot or removes from an
/// occupied one.
pub open spec fn alternating<C>(changes: Seq<Change<C>>) -> bool
    decreases changes.len(),
{
    changes.len() == 0 || {
        let c = changes.last();
        alternating(changes.drop_last()) && c.inserted != replay(changes.drop_last()).contains_key(
            c.slot,
        )
    }
}

/// Whether `e` is the event that policy `P` publishes for change `c`.
pub open spec fn describes<C, P: Mirrored<C>>(c: Change<C>, e: ChangeEvent<P::Payload>) -> bool {
    match e {
        ChangeEvent::Inserted(p) => c.inserted && P::builds(c.slot, c.value, p),
        ChangeEvent::Removed(p) => !c.inserted && P::builds(c.slot, c.value, p),
    }
}

/// A slot store of components of type `C` that publishes every insertion
/// and removal, with a payload built by policy `P`, to a log that consumers
/// read through their own cursors.
pub struct MirroredStorage<C, P: Mirrored<C>, S: SlotStorage<C> = VecStorage<C>> {
    log: EventLog<ChangeEvent<P::Payload>>,
    store: S,
    changes: Ghost<Seq<Change<C>>>,
}

impl<C, P: Mirrored<C>, S: SlotStorage<C>> MirroredStorage<C, P, S> {
    /// The components held, by slot.
    pub closed spec fn view(&self) -> Map<u32, C> {
        self.store.slots()
    }

    /// The event log.
    pub closed spec fn log(&self) -> EventLog<ChangeEvent<P::Payload>> {
        self.log
    }

    /// Every tracked transition so far, oldest first.
    pub closed spec fn changes(&self) -> Seq<Change<C>> {
        self.changes@
    }

    /// Every event published so far, oldest first.
    pub open spec fn events(&self) -> Seq<ChangeEvent<P::Payload>> {
        self.log().history()
    }

    /// The published events are, one for one, those the policy builds for
    /// the tracked transitions.
    pub open spec fn mirrors(&self) -> bool {
        &&& self.events().len() == self.changes().len()
        &&& forall|i: int|
            0 <= i < self.changes().len() ==> describes::<C, P>(
                #[trigger] self.changes()[i],
                self.events()[i],
            )
    }

    /// Internal consistency.
    pub open spec fn wf(&self) -> bool {
        self.log().wf() && self.mirrors()
    }

    /// Replaying the tracked transitions gives exactly the components held:
    /// no value was changed behind the log's back.
    pub open spec fn in_sync(&self) -> bool {
        replay(self.changes()) == self.view()
    }

    /// Room for `n` more events.
    pub open spec fn has_room(&self, n: nat) -> bool {
        self.events().len() + n <= u64::MAX
    }

    /// An empty storage whose log keeps every event.
    pub fn new() -> (r: Self)
        ensures
            r.wf(),
            r.in_sync(),
            r.view() == Map::<u32, C>::empty(),
            r.changes() == Seq::<Change<C>>::empty(),
            r.events() == Seq::<ChangeEvent<P::Payload>>::empty(),
            r.log().first() == 0,
            r.log().limit() == None::<usize>,
    {
        MirroredStorage { log: EventLog::new(), store: S::empty(), changes: Ghost(Seq::empty()) }
    }

    /// An empty storage whose log keeps only the newest `limit` events.
    pub fn with_retention(limit: usize) -> (r: Self)
        requires
            limit > 0,
        ensures
            r.wf(),
            r.in_sync(),
            r.view() == Map::<u32, C>::empty(),
            r.changes() == Seq::<Change<C>>::empty(),
            r.events() == Seq::<ChangeEvent<P::Payload>>::empty(),
            r.log().first() == 0,
            r.log().limit() == Some(limit),
    {
        MirroredStorage {
            log: EventLog::with_retention(limit),
            store: S::empty(),
            changes: Ghost(Seq::empty()),
        }
    }

    /// Whether a component is held at `slot`.
    pub fn contains(&self, slot: u32) -> (r: bool)
        ensures
            r == self.view().contains_key(slot),
    {
        self.store.is_occupied(slot)
    }

    /// The component at `slot`; publishes nothing.
    pub fn get(&self, slot: u32) -> (r: &C)
        requires
            self.view().contains_key(slot),
        ensures
            *r == self.view()[slot],
    {
        self.store.get(slot)
    }

    /// Mutable access to the component at `slot`; publishes nothing.
    pub fn get_mut(&mut self, slot: u32) -> (r: &mut C)
        requires
            old(self).view().contains_key(slot),
        ensures
            *r == old(self).view()[slot],
            final(self).view() == old(self).view().insert(slot, *final(r)),
            final(self).log() == old(self).log(),
            final(self).changes() == old(self).changes(),
    {
        self.store.get_mut(slot)
    }

    /// Drops the components at every slot in `has`; publishes nothing.
    pub fn clean(&mut self, has: &BitSet)
        ensures
            final(self).view() == old(self).view().remove_keys(bits_of(*has)),
            final(self).log() == old(self).log(),
            final(self).changes() == old(self).changes(),
    {
        self.store.clean(has)
    }

    /// The event log, for reading.
    pub fn log_ref(&self) -> (r: &EventLog<ChangeEvent<P::Payload>>)
        ensures
            *r == self.log(),
    {
        &self.log
    }

    /// The number of events published so far.
    pub fn event_count(&self) -> (r: u64)
        requires
            self.wf(),
        ensures
            r == self.events().len(),
    {
        self.log.len_total()
    }

    /// Stores `value` at `slot`, replacing any value there, and publishes an
    /// insertion built from `value` before it moves into the store.
    pub fn insert(&mut self, slot: u32, value: C)
        requires
            old(self).wf(),
            old(self).has_room(1),
        ensures
            final(self).wf(),
            final(self).view() == old(self).view().insert(slot, value),
            final(self).changes() == old(self).changes().push(
                (Change { inserted: true, slot: slot, value: value }),
            ),
            final(self).events().len() == old(self).events().len() + 1,
            old(self).events().is_prefix_of(final(self).events()),
            describes::<C, P>(
                (Change { inserted: true, slot: slot, value: value }),
                final(self).events().last(),
            ),
            final(self).log().limit() == old(self).log().limit(),
            final(self).log().first() == old(self).log().first_after(1),
            old(self).in_sync() ==> final(self).in_sync(),
            alternating(final(self).changes()) == (alternating(old(self).changes())
                && !replay(old(self).changes()).contains_key(slot)),
    {
        let ghost c = Change { inserted: true, slot: slot, value: value };
        let p = P::payload(slot, &value);
        self.log.append(ChangeEvent::Inserted(p));
        self.store.insert(slot, value);
        self.changes = Ghost(self.changes@.push(c));
        proof {
            assert(self.changes@.drop_last() =~= old(self).changes@);
            assert(old(self).events() =~= self.events().subrange(0, old(self).events().len() as int));
        }
    }

    /// Takes the component out of `slot` and publishes a removal built from it.
    pub fn remove(&mut self, slot: u32) -> (r: C)
        requires
            old(self).wf(),
            old(self).view().contains_key(slot),
            old(self).has_room(1),
        ensures
            final(self).wf(),
            r == old(self).view()[slot],
            final(self).view() == old(self).view().remove(slot),
            final(self).changes() == old(self).changes().push(
                (Change { inserted: false, slot: slot, value: r }),
            ),
            final(self).events().len() == old(self).events().len() + 1,
            old(self).events().is_prefix_of(final(self).events()),
            describes::<C, P>(
                (Change { inserted: false, slot: slot, value: r }),
                final(self).events().last(),
            ),
            final(self).log().limit() == old(self).log().limit(),
            final(self).log().first() == old(self).log().first_after(1),
            old(self).in_sync() ==> final(self).in_sync(),
            old(self).in_sync() ==> alternating(final(self).changes()) == alternating(
                old(self).changes(),
            ),
    {
        let value = self.store.remove(slot);
        let p = P::payload(slot, &value);
        self.log.append(ChangeEvent::Removed(p));
        self.changes = Ghost(self.changes@.push(Change { inserted: false, slot: slot, value: value }));
        proof {
            assert(self.changes@.drop_last() =~= old(self).changes@);
            assert(old(self).events() =~= self.events().subrange(0, old(self).events().len() as int));
        }
        value
    }

    /// Replaces the component at `slot` with `value`, publishing a removal of
    /// the old component and then an insertion of the new one. Where `slot`
    /// holds nothing, publishes nothing and hands `value` back.
    pub fn modify(&mut self, slot: u32, value: C) -> (r: Option<C>)
        requires
            old(self).wf(),
            old(self).has_room(2),
        ensures
            final(self).wf(),
            !old(self).view().contains_key(slot) ==> {
                &&& r == Some(value)
                &&& final(self).view() == old(self).view()
                &&& final(self).log() == old(self).log()
                &&& final(self).changes() == old(self).changes()
            },
            old(self).view().contains_key(slot) ==> {
                &&& r == None::<C>
                &&& final(self).view() == old(self).view().insert(slot, value)
                &&& final(self).changes() == old(self).changes().push(
                    (Change { inserted: false, slot: slot, value: old(self).view()[slot] }),
                ).push((Change { inserted: true, slot: slot, value: value }))
                &&& final(self).events().len() == old(self).events().len() + 2
                &&& old(self).events().is_prefix_of(final(self).events())
                &&& final(self).log().limit() == old(self).log().limit()
                &&& final(self).log().first() == old(self).log().first_after(2)
            },
            old(self).in_sync() ==> final(self).in_sync(),
            old(self).in_sync() ==> alternating(final(self).changes()) == alternating(
                old(self).changes(),
            ),
    {
        if !self.store.is_occupied(slot) {
            return Some(value);
        }
        let ghost c_old = Change { inserted: false, slot: slot, value: self.store.slots()[slot] };
        let ghost c_new = Change { inserted: true, slot: slot, value: value };
        proof {
            self.log.lemma_window();
        }
        let p_old = P::payload(slot, self.store.get(slot));
        self.log.append(ChangeEvent::Removed(p_old));
        proof {
            self.log.lemma_window();
        }
        let p_new = P::payload(slot, &value);
        self.log.append(ChangeEvent::Inserted(p_new));
        self.store.insert(slot, value);
        let ghost mid = self.changes@.push(c_old);
        self.changes = Ghost(mid.push(c_new));
        proof {
            assert(self.changes@.drop_last() =~= mid);
            assert(mid.drop_last() =~= old(self).changes@);
            assert(old(self).events() =~= self.events().subrange(0, old(self).events().len() as int));
            assert(replay(mid) == replay(old(self).changes@).remove(slot));
            assert(!replay(mid).contains_key(slot));
            assert(replay(self.changes@) == replay(mid).insert(slot, value));
            if old(self).in_sync() {
                assert(replay(self.changes@) =~= self.view());
                assert(alternating(mid) == alternating(old(self).changes@));
            }
        }
        None
    }
}

} // verus!
