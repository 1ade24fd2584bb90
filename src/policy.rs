//! Payload policies: what travels with each change event.
use vstd::prelude::*;

verus! {

/// A change published for one slot: the value there was inserted or removed.
/// The payload is whatever the component's policy builds for the transition.
#[derive(Debug, Clone, PartialEq, Eq)]
pub enum ChangeEvent<P> {
    /// A value was stored at a slot.
    Inserted(P),
    /// A value was taken out of a slot.
    Removed(P),
}

/// A payload policy: given a slot and the value at the moment of a
/// transition, builds what accompanies the change event.
///
/// A policy never changes the value; it is fixed per component type.
pub trait Mirrored<V> {
    /// What accompanies each change event.
    type Payload;

    /// Whether `payload` is what this policy builds for `value` at `slot`.
    spec fn builds(slot: u32, value: V, payload: Self::Payload) -> bool;

    /// Builds the payload for `value` at `slot`.
    fn payload(slot: u32, value: &V) -> (p: Self::Payload)
        ensures
            Self::builds(slot, *value, p),
    ;
}

/// Events carry their kind only; the value is never read.
pub struct NoPayload;

/// Events carry the slot they concern.
pub struct SlotOnly;

/// Events carry the slot and a copy of the value taken at the transition.
pub struct Snapshot;

impl<V> Mirrored<V> for NoPayload {
    type Payload = ();

    open spec fn builds(slot: u32, value: V, payload: ()) -> bool {
        true
    }

    fn payload(slot: u32, value: &V) -> (p: ()) {
    }
}

impl<V> Mirrored<V> for SlotOnly {
    type Payload = u32;

    open spec fn builds(slot: u32, value: V, payload: u32) -> bool {
        payload == slot
    }

    fn payload(slot: u32, value: &V) -> (p: u32) {
        slot
    }
}

impl<V: Clone> Mirrored<V> for Snapshot {
    type Payload = (u32, V);

    open spec fn builds(slot: u32, value: V, payload: (u32, V)) -> bool {
        payload.0 == slot && cloned(value, payload.1)
    }

    fn payload(slot: u32, value: &V) -> (p: (u32, V)) {
        (slot, value.clone())
    }
}

} // verus!
