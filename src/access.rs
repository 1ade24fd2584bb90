//! The consumer side of a mirrored storage: register a cursor, read what
//! was published, perform tracked updates.
use crate::event_log::ReaderCursor;
use crate::mirrored::{alternating, replay, Change, MirroredStorage};
use crate::policy::{ChangeEvent, Mirrored};
use crate::storage::SlotStorage;
use vstd::prelude::*;

verus! {

/// Reading the change events of a storage of components `C` under policy `P`.
pub trait StorageExt<C, P: Mirrored<C>> {
    /// Internal consistency of the storage.
    spec fn ready(&self) -> bool;

    /// Every event published so far, oldest first.
    spec fn published(&self) -> Seq<ChangeEvent<P::Payload>>;

    /// The events a cursor at `pos` receives from its next read.
    spec fn unread(&self, pos: nat) -> Seq<ChangeEvent<P::Payload>>;

    /// The events published since the cursor's last read, oldest first; the
    /// cursor moves past them.
    fn read_events<'a>(&'a self, reader: &mut ReaderCursor) -> (r: Vec<&'a ChangeEvent<P::Payload>>)
        requires
            self.ready(),
            old(reader).pos() <= self.published().len(),
        ensures
            r@.map_values(|e: &ChangeEvent<P::Payload>| *e) == self.unread(old(reader).pos()),
            final(reader).pos() == self.published().len(),
    ;
}

/// Registering readers and performing tracked updates on a storage of
/// components `C` under policy `P`.
pub trait StorageMutExt<C, P: Mirrored<C>>: StorageExt<C, P> {
    /// The components held, by slot.
    spec fn components(&self) -> Map<u32, C>;

    /// Every tracked transition so far, oldest first.
    spec fn transitions(&self) -> Seq<Change<C>>;

    /// A cursor that receives every event published from now on, and none
    /// published before.
    fn register_reader(&self) -> (c: ReaderCursor)
        requires
            self.ready(),
        ensures
            c.pos() == self.published().len(),
    ;

    /// Replaces the component at `slot` with `value`, publishing a removal of
    /// the old component and then an insertion of the new one; where `slot`
    /// holds nothing, publishes nothing and hands `value` back.
    fn modify(&mut self, slot: u32, value: C) -> (r: Option<C>)
        requires
            old(self).ready(),
            old(self).published().len() + 2 <= u64::MAX,
        ensures
            final(self).ready(),
            !old(self).components().contains_key(slot) ==> {
                &&& r == Some(value)
                &&& final(self).components() == old(self).components()
                &&& final(self).published() == old(self).published()
                &&& final(self).transitions() == old(self).transitions()
            },
            old(self).components().contains_key(slot) ==> {
                &&& r == None::<C>
                &&& final(self).components() == old(self).components().insert(slot, value)
                &&& final(self).transitions() == old(self).transitions().push(
                    (Change { inserted: false, slot: slot, value: old(self).components()[slot] }),
                ).push((Change { inserted: true, slot: slot, value: value }))
                &&& final(self).published().len() == old(self).published().len() + 2
                &&& old(self).published().is_prefix_of(final(self).published())
            },
            replay(old(self).transitions()) == old(self).components() ==> {
                &&& replay(final(self).transitions()) == final(self).components()
                &&& alternating(final(self).transitions()) == alternating(old(self).transitions())
            },
    ;
}

impl<C, P: Mirrored<C>, S: SlotStorage<C>> StorageExt<C, P> for MirroredStorage<C, P, S> {
    open spec fn ready(&self) -> bool {
        self.wf()
    }

    open spec fn published(&self) -> Seq<ChangeEvent<P::Payload>> {
        self.events()
    }

    open spec fn unread(&self, pos: nat) -> Seq<ChangeEvent<P::Payload>> {
        self.log().pending(pos)
    }

    fn read_events<'a>(&'a self, reader: &mut ReaderCursor) -> (r: Vec<&'a ChangeEvent<P::Payload>>) {
        self.log_ref().drain(reader)
    }
}

impl<C, P: Mirrored<C>, S: SlotStorage<C>> StorageMutExt<C, P> for MirroredStorage<C, P, S> {
    open spec fn components(&self) -> Map<u32, C> {
        self.view()
    }

    open spec fn transitions(&self) -> Seq<Change<C>> {
        self.changes()
    }

    fn register_reader(&self) -> (c: ReaderCursor) {
        self.log_ref().new_cursor()
    }

    fn modify(&mut self, slot: u32, value: C) -> (r: Option<C>) {
        MirroredStorage::modify(self, slot, value)
    }
}

} // verus!
