//! The arena that stores split values.
//!
//! Every split value lives in a cell of its own, together with the flag that
//! its two handles share. A cell is named by the slot it occupies and by the
//! token that the slot bore when the cell was put there; the token of a slot
//! changes whenever its cell is taken out, so the name of a cell that is gone
//! never names a later one.

use vstd::prelude::*;

verus! {

/// The name of one cell of an arena.
#[derive(Clone, Copy, PartialEq, Eq, Structural, Debug)]
pub struct WholeRef {
    slot: usize,
    token: u64,
}

/// What a cell holds: the whole value, and whether one of its two handles has
/// been dropped already.
pub struct CellView<W> {
    pub value: W,
    pub should_drop_value: bool,
}

/// A shared storage cell.
pub(crate) struct WholeCell<W> {
    should_drop_value: bool,
    value: W,
}

impl<W> View for WholeCell<W> {
    type V = CellView<W>;

    closed spec fn view(&self) -> CellView<W> {
        CellView { value: self.value, should_drop_value: self.should_drop_value }
    }
}

impl<W> WholeCell<W> {
    /// A cell for `value` that none of its handles has let go of.
    pub(crate) fn new(value: W) -> (cell: Self)
        ensures
            cell@ == (CellView { value, should_drop_value: false }),
    {
        WholeCell { should_drop_value: false, value }
    }

    /// Raises the flag and hands back what it was before.
    pub(crate) fn finalize(&mut self) -> (previous: bool)
        ensures
            previous == old(self)@.should_drop_value,
            final(self)@ == (CellView { value: old(self)@.value, should_drop_value: true }),
    {
        let previous = self.should_drop_value;
        self.should_drop_value = true;
        previous
    }

    /// Exclusive access to the whole value. The flag stays as it is.
    pub(crate) fn value_mut(&mut self) -> (value: &mut W)
        ensures
            *value == old(self)@.value,
            final(self)@ == (CellView {
                value: *final(value),
                should_drop_value: old(self)@.should_drop_value,
            }),
    {
        &mut self.value
    }
}

struct Slot<W> {
    token: u64,
    cell: Option<WholeCell<W>>,
}

/// The storage that split values live in.
///
/// Its view maps the name of every live cell to what the cell holds.
pub struct Arena<W> {
    slots: Vec<Slot<W>>,
    vacant: Vec<usize>,
    live: usize,
}

impl<W> View for Arena<W> {
    type V = Map<WholeRef, CellView<W>>;

    closed spec fn view(&self) -> Map<WholeRef, CellView<W>> {
        Map::new(
            |whole: WholeRef|
                whole.slot < self.slots@.len() && self.slots@[whole.slot as int].token
                    == whole.token && self.slots@[whole.slot as int].cell is Some,
            |whole: WholeRef| self.slots@[whole.slot as int].cell->0@,
        )
    }
}

impl<W> Arena<W> {
    /// The invariant of an arena: the vacant slots are empty slots, each
    /// listed once, and `live` counts the cells.
    pub closed spec fn wf(&self) -> bool {
        &&& forall|i: int|
            0 <= i < self.vacant@.len() ==> (#[trigger] self.vacant@[i]) < self.slots@.len()
                && self.slots@[self.vacant@[i] as int].cell is None
        &&& forall|i: int, j: int|
            0 <= i < j < self.vacant@.len() ==> self.vacant@[i] != self.vacant@[j]
        &&& self@.dom().finite()
        &&& self.live == self@.dom().len()
        &&& self.live + self.vacant@.len() <= self.slots@.len()
    }

    /// Whether `other` has its cells in the same slots and under the same
    /// tokens as `self`, and the same vacant slots.
    spec fn same_shape(&self, other: &Arena<W>) -> bool {
        &&& other.vacant@ == self.vacant@
        &&& other.live == self.live
        &&& other.slots@.len() == self.slots@.len()
        &&& forall|i: int|
            0 <= i < self.slots@.len() ==> (#[trigger] other.slots@[i]).token
                == self.slots@[i].token && (other.slots@[i].cell is Some
                <==> self.slots@[i].cell is Some)
    }

    /// The invariant speaks of where the cells are, not of what they hold.
    proof fn lemma_same_shape(&self, other: &Arena<W>)
        requires
            self.wf(),
            self.same_shape(other),
        ensures
            other.wf(),
            other@.dom() == self@.dom(),
    {
        assert(other@.dom() =~= self@.dom());
    }

    /// An arena without cells.
    pub fn new() -> (arena: Self)
        ensures
            arena.wf(),
            arena@ == Map::<WholeRef, CellView<W>>::empty(),
    {
        let arena = Arena { slots: Vec::new(), vacant: Vec::new(), live: 0 };
        assert(arena@ =~= Map::<WholeRef, CellView<W>>::empty());
        arena
    }

    /// The number of live cells.
    pub fn len(&self) -> (n: usize)
        requires
            self.wf(),
        ensures
            n == self@.dom().len(),
    {
        self.live
    }

    /// Whether no cell is live.
    pub fn is_empty(&self) -> (empty: bool)
        requires
            self.wf(),
        ensures
            empty <==> self@ == Map::<WholeRef, CellView<W>>::empty(),
    {
        proof {
            if self@.dom().len() == 0 {
                assert(self@ =~= Map::<WholeRef, CellView<W>>::empty());
            }
        }
        self.live == 0
    }

    /// Whether `whole` names a live cell of this arena.
    pub fn contains(&self, whole: WholeRef) -> (found: bool)
        ensures
            found == self@.contains_key(whole),
    {
        whole.slot < self.slots.len() && self.slots[whole.slot].token == whole.token
            && self.slots[whole.slot].cell.is_some()
    }

    /// Puts `cell` into a slot, a vacant one if there is any, and names it.
    pub(crate) fn insert(&mut self, cell: WholeCell<W>) -> (whole: WholeRef)
        requires
            old(self).wf(),
        ensures
            final(self).wf(),
            !old(self)@.contains_key(whole),
            final(self)@ == old(self)@.insert(whole, cell@),
    {
        match self.vacant.pop() {
            Some(slot) => {
                assert(old(self).live < old(self).slots.len());
                let token = self.slots[slot].token;
                self.slots[slot].cell = Some(cell);
                self.live = self.live + 1;
                let whole = WholeRef { slot, token };
                assert(self@ =~= old(self)@.insert(whole, cell@));
                whole
            },
            None => {
                let slot = self.slots.len();
                self.slots.push(Slot { token: 0, cell: Some(cell) });
                assert(self.slots.len() == old(self).slots@.len() + 1);
                self.live = self.live + 1;
                let whole = WholeRef { slot, token: 0 };
                assert(self@ =~= old(self)@.insert(whole, cell@));
                whole
            },
        }
    }

    /// Takes the cell `whole` out. Its slot gets the next token and becomes
    /// vacant; a slot that has run out of tokens is not used again.
    pub(crate) fn remove(&mut self, whole: WholeRef) -> (cell: WholeCell<W>)
        requires
            old(self).wf(),
            old(self)@.contains_key(whole),
        ensures
            final(self).wf(),
            cell@ == old(self)@[whole],
            final(self)@ == old(self)@.remove(whole),
    {
        let cell = self.slots[whole.slot].cell.take().unwrap();
        self.live = self.live - 1;
        if whole.token < u64::MAX {
            self.slots[whole.slot].token = whole.token + 1;
            self.vacant.push(whole.slot);
        }
        assert(self@ =~= old(self)@.remove(whole));
        cell
    }

    /// Exclusive access to the cell `whole`. Whatever is written to it, the
    /// other cells stay as they are.
    pub(crate) fn cell_mut(&mut self, whole: WholeRef) -> (cell: &mut WholeCell<W>)
        requires
            old(self).wf(),
            old(self)@.contains_key(whole),
        ensures
            cell@ == old(self)@[whole],
            final(self).wf(),
            final(self)@ =~= old(self)@.insert(whole, final(cell)@),
    {
        proof {
            assert forall|other: Arena<W>| self.same_shape(&other) implies #[trigger] other.wf() by {
                self.lemma_same_shape(&other);
            }
        }
        match &mut self.slots[whole.slot].cell {
            Some(cell) => cell,
            None => unreached(),
        }
    }
}

impl<W> Default for Arena<W> {
    fn default() -> (arena: Self)
        ensures
            arena.wf(),
            arena@ == Map::<WholeRef, CellView<W>>::empty(),
    {
        Arena::new()
    }
}

} // verus!
