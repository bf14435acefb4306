//! > « On fait moite-moite ? »
//!
//! A mechanism to split a value into two owned parts.
//!
//! [`SplitMut`] says how a value lends out its two parts. [`sync::split`]
//! moves such a value into an [`arena::Arena`] and returns one owned handle
//! for each part. The whole value is dropped when the second of the two
//! handles is.

use vstd::prelude::*;

pub mod arena;
pub mod sync;

verus! {

/// Splits a value into two mutable references to disjoint parts of it.
///
/// The contract of `split_mut` is stated over `left` and `right`, which say
/// what the two parts of a value are.
pub trait SplitMut<L, R> {
    /// The left part of the value. A type that does not say what its left
    /// part is leaves it unknown.
    open spec fn left(&self) -> L {
        arbitrary()
    }

    /// The right part of the value. A type that does not say what its right
    /// part is leaves it unknown.
    open spec fn right(&self) -> R {
        arbitrary()
    }

    /// Borrows both parts at once. Each reference starts out at its part, and
    /// when the borrows end each part of the value is what was last written
    /// through its own reference.
    fn split_mut(&mut self) -> (parts: (&mut L, &mut R))
        ensures
            *parts.0 == old(self).left(),
            *parts.1 == old(self).right(),
            final(self).left() == *final(parts.0),
            final(self).right() == *final(parts.1),
    ;
}

impl<L, R> SplitMut<L, R> for (L, R) {
    open spec fn left(&self) -> L {
        self.0
    }

    open spec fn right(&self) -> R {
        self.1
    }

    fn split_mut(&mut self) -> (parts: (&mut L, &mut R))
        ensures
            *final(self) == (*final(parts.0), *final(parts.1)),
    {
        (&mut self.0, &mut self.1)
    }
}

} // verus!
