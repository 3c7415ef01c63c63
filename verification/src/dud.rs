//! A way to drop the value of an expression.

use vstd::prelude::*;

verus! {

/// Turns any value into `()`, so that an expression can stand where a
/// statement is wanted.
pub trait Dud {
    /// Drops the value.
    fn dud(self) where Self: Sized {
    }
}

impl<T> Dud for T where T: Sized {

}

} // verus!
