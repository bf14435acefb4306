//! Splitting a value into two owned handles.
//!
//! [`split`] moves a value into a cell of an [`Arena`] and hands out two
//! handles to it, one for each part. Either handle reaches its own part and
//! nothing else, and the two share one flag in the cell: the handle that is
//! dropped first raises it, the handle that is dropped second finds it raised
//! and tears the whole value down.

use core::marker::PhantomData;
use vstd::prelude::*;
use crate::arena::{Arena, CellView, WholeCell, WholeRef};
use crate::SplitMut;

verus! {

/// Which of the two parts of a whole value a handle stands for.
#[derive(Clone, Copy, PartialEq, Eq, Structural, Debug)]
pub enum Side {
    Left,
    Right,
}

/// What a handle is: the cell it shares with its sibling, and its side.
pub struct PartView {
    pub whole: WholeRef,
    pub side: Side,
}

/// A part of a split value.
///
/// Gives exclusive access to a `T` inside a whole value `W` that lives in an
/// arena.
pub struct Part<T, W> {
    whole: WholeRef,
    side: Side,
    marker: PhantomData<(T, W)>,
}

impl<T, W> View for Part<T, W> {
    type V = PartView;

    closed spec fn view(&self) -> PartView {
        PartView { whole: self.whole, side: self.side }
    }
}

/// The cells of an arena once `value` has been split into the cell `whole`.
pub open spec fn after_split<W>(
    cells: Map<WholeRef, CellView<W>>,
    whole: WholeRef,
    value: W,
) -> Map<WholeRef, CellView<W>> {
    cells.insert(whole, CellView { value, should_drop_value: false })
}

/// Whether dropping the handle `part` tears the whole value down: it does
/// when the sibling of `part` is gone already.
pub open spec fn tears_down<W>(cells: Map<WholeRef, CellView<W>>, part: PartView) -> bool {
    cells[part.whole].should_drop_value
}

/// The cells of an arena once the handle `part` has been dropped. The first
/// handle of a cell to go raises the flag, the second takes the cell away.
pub open spec fn after_drop<W>(cells: Map<WholeRef, CellView<W>>, part: PartView) -> Map<
    WholeRef,
    CellView<W>,
> {
    if tears_down(cells, part) {
        cells.remove(part.whole)
    } else {
        cells.insert(
            part.whole,
            CellView { value: cells[part.whole].value, should_drop_value: true },
        )
    }
}

/// Splits a value into two owned parts.
///
/// The value moves into a cell of `arena` that was not live before, and the
/// two handles name that cell, the first its left and the second its right
/// part.
pub fn split<L, R, W>(value: W, arena: &mut Arena<W>) -> (parts: (Part<L, W>, Part<R, W>)) where
    W: SplitMut<L, R>,

    requires
        old(arena).wf(),
    ensures
        final(arena).wf(),
        parts.0@.side == Side::Left,
        parts.1@.side == Side::Right,
        parts.0@.whole == parts.1@.whole,
        !old(arena)@.contains_key(parts.0@.whole),
        final(arena)@ == after_split(old(arena)@, parts.0@.whole, value),
{
    let whole = arena.insert(WholeCell::new(value));
    let left = Part { whole, side: Side::Left, marker: PhantomData };
    let right = Part { whole, side: Side::Right, marker: PhantomData };
    (left, right)
}

impl<T, W> Part<T, W> {
    /// The cell that this handle shares with its sibling.
    pub fn whole(&self) -> (whole: WholeRef)
        ensures
            whole == self@.whole,
    {
        self.whole
    }

    /// The side of the whole value that this handle stands for.
    pub fn side(&self) -> (side: Side)
        ensures
            side == self@.side,
    {
        self.side
    }

    /// Exclusive access to the left part of the whole value.
    ///
    /// The reference starts out at the left part. When the borrow ends, the
    /// left part is what was last written through the reference; the right
    /// part, the flag and every other cell of the arena are what they were.
    pub fn left_mut<'a, R: 'a>(&'a mut self, arena: &'a mut Arena<W>) -> (part: &'a mut T) where
        W: SplitMut<T, R>,

        requires
            old(arena).wf(),
            old(arena)@.contains_key(old(self)@.whole),
            old(self)@.side == Side::Left,
        ensures
            final(self)@ == old(self)@,
            final(arena).wf(),
            *part == old(arena)@[old(self)@.whole].value.left(),
            final(arena)@ == old(arena)@.insert(
                old(self)@.whole,
                final(arena)@[old(self)@.whole],
            ),
            final(arena)@[old(self)@.whole].value.left() == *final(part),
            final(arena)@[old(self)@.whole].value.right() == old(
                arena,
            )@[old(self)@.whole].value.right(),
            final(arena)@[old(self)@.whole].should_drop_value == old(
                arena,
            )@[old(self)@.whole].should_drop_value,
    {
        let (left, _right) = arena.cell_mut(self.whole).value_mut().split_mut();
        left
    }

    /// Exclusive access to the right part of the whole value.
    ///
    /// The reference starts out at the right part. When the borrow ends, the
    /// right part is what was last written through the reference; the left
    /// part, the flag and every other cell of the arena are what they were.
    pub fn right_mut<'a, L: 'a>(&'a mut self, arena: &'a mut Arena<W>) -> (part: &'a mut T) where
        W: SplitMut<L, T>,

        requires
            old(arena).wf(),
            old(arena)@.contains_key(old(self)@.whole),
            old(self)@.side == Side::Right,
        ensures
            final(self)@ == old(self)@,
            final(arena).wf(),
            *part == old(arena)@[old(self)@.whole].value.right(),
            final(arena)@ == old(arena)@.insert(
                old(self)@.whole,
                final(arena)@[old(self)@.whole],
            ),
            final(arena)@[old(self)@.whole].value.right() == *final(part),
            final(arena)@[old(self)@.whole].value.left() == old(
                arena,
            )@[old(self)@.whole].value.left(),
            final(arena)@[old(self)@.whole].should_drop_value == old(
                arena,
            )@[old(self)@.whole].should_drop_value,
    {
        let (_left, right) = arena.cell_mut(self.whole).value_mut().split_mut();
        right
    }

    /// Drops the handle, and with the second handle of a cell the whole value.
    ///
    /// Swaps the flag of the cell to raised. Where it was down before, the
    /// sibling is still there and the cell stays for it. Where it was raised
    /// before, this handle is the last one: the cell leaves the arena and the
    /// whole value is dropped. Returns whether that happened.
    pub fn drop(self, arena: &mut Arena<W>) -> (torn_down: bool)
        requires
            old(arena).wf(),
            old(arena)@.contains_key(self@.whole),
        ensures
            final(arena).wf(),
            torn_down == tears_down(old(arena)@, self@),
            final(arena)@ == after_drop(old(arena)@, self@),
    {
        if arena.cell_mut(self.whole).finalize() {
            arena.remove(self.whole);
            true
        } else {
            false
        }
    }
}

/// Splitting a pair gives a left handle that reads the first component and a
/// right handle that reads the second.
pub proof fn lemma_split_pair_round_trip<A, B>(
    cells: Map<WholeRef, CellView<(A, B)>>,
    whole: WholeRef,
    a: A,
    b: B,
)
    ensures
        after_split(cells, whole, (a, b))[whole].value.left() == a,
        after_split(cells, whole, (a, b))[whole].value.right() == b,
{
}

/// Dropping one handle of a split value while its sibling is still there
/// tears nothing down: the cell stays, with the whole value as it was.
pub proof fn lemma_first_drop_keeps_whole<W>(
    cells: Map<WholeRef, CellView<W>>,
    first: PartView,
)
    requires
        cells.contains_key(first.whole),
        !cells[first.whole].should_drop_value,
    ensures
        !tears_down(cells, first),
        after_drop(cells, first).contains_key(first.whole),
        after_drop(cells, first)[first.whole].value == cells[first.whole].value,
        after_drop(cells, first).dom() == cells.dom(),
{
    assert(after_drop(cells, first).dom() =~= cells.dom());
}

/// The whole value of a split is torn down exactly once, by the handle that
/// is dropped second, whichever of the two that is. Afterwards the cell is
/// gone and the rest of the arena is what it was before the split.
pub proof fn lemma_torn_down_exactly_once<W>(
    cells: Map<WholeRef, CellView<W>>,
    value: W,
    left: PartView,
    right: PartView,
)
    requires
        left.whole == right.whole,
        left.side == Side::Left,
        right.side == Side::Right,
    ensures
        ({
            let both = after_split(cells, left.whole, value);
            &&& !tears_down(both, left)
            &&& tears_down(after_drop(both, left), right)
            &&& after_drop(after_drop(both, left), right) == cells.remove(left.whole)
            &&& !tears_down(both, right)
            &&& tears_down(after_drop(both, right), left)
            &&& after_drop(after_drop(both, right), left) == cells.remove(left.whole)
        }),
{
    let both = after_split(cells, left.whole, value);
    assert(after_drop(after_drop(both, left), right) =~= cells.remove(left.whole));
    assert(after_drop(after_drop(both, right), left) =~= cells.remove(left.whole));
}

} // verus!
