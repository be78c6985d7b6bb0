//! What a program's `main` hands back becomes its exit status.

use vstd::prelude::*;

verus! {

/// A value that `main` can return: it reports the program's exit status.
pub trait Termination {
    /// The exit status that this value stands for.
    fn report(self) -> i32;
}

impl Termination for () {
    /// A `main` that returns nothing succeeds: the status is 0.
    fn report(self) -> (status: i32)
        ensures
            status == 0,
    {
        0
    }
}

} // verus!
