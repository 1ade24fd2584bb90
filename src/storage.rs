//! Slot-indexed backing stores that a mirrored storage wraps.
use hibitset::BitSet;
use vstd::prelude::*;

verus! {

#[verifier::external_type_specification]
#[verifier::external_body]
pub struct ExBitSet(hibitset::BitSet);

/// The indices held by a bit set.
pub uninterp spec fn bits_of(b: hibitset::BitSet) -> Set<u32>;

/// Relies on hibitset::BitSet::contains: whether `id` is in the set.
pub assume_specification[ hibitset::BitSet::contains ](b: &hibitset::BitSet, id: u32) -> (r: bool)
    ensures
        r == bits_of(*b).contains(id),
;

/// A slot-indexed store of values: the capability a mirrored storage needs
/// from whatever actually holds the values.
pub trait SlotStorage<V>: Sized {
    /// The values held, by slot.
    spec fn slots(&self) -> Map<u32, V>;

    /// A store holding nothing.
    fn empty() -> (s: Self)
        ensures
            s.slots() == Map::<u32, V>::empty(),
    ;

    /// Whether a value is held at `slot`.
    fn is_occupied(&self, slot: u32) -> (r: bool)
        ensures
            r == self.slots().contains_key(slot),
    ;

    /// The value held at `slot`.
    fn get(&self, slot: u32) -> (r: &V)
        requires
            self.slots().contains_key(slot),
        ensures
            *r == self.slots()[slot],
    ;

    /// Mutable access to the value held at `slot`.
    fn get_mut(&mut self, slot: u32) -> (r: &mut V)
        requires
            old(self).slots().contains_key(slot),
        ensures
            *r == old(self).slots()[slot],
            final(self).slots() == old(self).slots().insert(slot, *final(r)),
    ;

    /// Stores `value` at `slot`, replacing what was there.
    fn insert(&mut self, slot: u32, value: V)
        ensures
            final(self).slots() == old(self).slots().insert(slot, value),
    ;

    /// Takes the value out of `slot`.
    fn remove(&mut self, slot: u32) -> (r: V)
        requires
            old(self).slots().contains_key(slot),
        ensures
            r == old(self).slots()[slot],
            final(self).slots() == old(self).slots().remove(slot),
    ;

    /// Drops the values at every slot in `has`.
    fn clean(&mut self, has: &BitSet)
        ensures
            final(self).slots() == old(self).slots().remove_keys(bits_of(*has)),
    ;
}

/// A store that keeps the value of slot `i` at position `i` of a vector.
pub struct VecStorage<V> {
    cells: Vec<Option<V>>,
}

impl<V> VecStorage<V> {
    /// The values held, by slot.
    spec fn cells_map(cells: Seq<Option<V>>) -> Map<u32, V> {
        Map::new(
            |k: u32| (k as int) < cells.len() && cells[k as int] is Some,
            |k: u32| cells[k as int]->Some_0,
        )
    }
}

impl<V> SlotStorage<V> for VecStorage<V> {
    closed spec fn slots(&self) -> Map<u32, V> {
        Self::cells_map(self.cells@)
    }

    fn empty() -> (s: Self) {
        let s = VecStorage { cells: Vec::new() };
        assert(s.slots() =~= Map::<u32, V>::empty());
        s
    }

    fn is_occupied(&self, slot: u32) -> (r: bool) {
        let i = slot as usize;
        i < self.cells.len() && self.cells[i].is_some()
    }

    fn get(&self, slot: u32) -> (r: &V) {
        match &self.cells[slot as usize] {
            Some(v) => v,
            None => vstd::pervasive::unreached(),
        }
    }

    fn get_mut(&mut self, slot: u32) -> (r: &mut V) {
        match &mut self.cells[slot as usize] {
            Some(v) => v,
            None => vstd::pervasive::unreached(),
        }
    }

    fn insert(&mut self, slot: u32, value: V) {
        let i = slot as usize;
        while self.cells.len() <= i
            invariant
                Self::cells_map(self.cells@) == Self::cells_map(old(self).cells@),
            decreases i + 1 - self.cells.len(),
        {
            let ghost before = self.cells@;
            self.cells.push(None);
            assert(Self::cells_map(self.cells@) =~= Self::cells_map(before));
        }
        let ghost before = self.cells@;
        self.cells.set(i, Some(value));
        assert(Self::cells_map(self.cells@) =~= Self::cells_map(before).insert(slot, value));
    }

    fn remove(&mut self, slot: u32) -> (r: V) {
        let i = slot as usize;
        let ghost before = self.cells@;
        let taken = self.cells[i].take();
        assert(Self::cells_map(self.cells@) =~= Self::cells_map(before).remove(slot));
        match taken {
            Some(v) => v,
            None => vstd::pervasive::unreached(),
        }
    }

    fn clean(&mut self, has: &BitSet) {
        let n = self.cells.len();
        let mut i: usize = 0;
        while i < n
            invariant
                n == self.cells@.len(),
                i <= n,
                forall|j: int|
                    0 <= j < n ==> #[trigger] self.cells@[j] == if j < i && j <= u32::MAX && bits_of(
                        *has,
                    ).contains(j as u32) {
                        None
                    } else {
                        old(self).cells@[j]
                    },
            decreases n - i,
        {
            if i <= u32::MAX as usize && has.contains(i as u32) {
                self.cells.set(i, None);
            }
            i = i + 1;
        }
        assert(Self::cells_map(self.cells@) =~= Self::cells_map(old(self).cells@).remove_keys(
            bits_of(*has),
        ));
    }
}

} // verus!
