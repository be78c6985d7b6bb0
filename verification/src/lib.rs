//! Small building blocks for libc-based command-line tools: the decisions
//! behind retrying `write(2)`, argument parsing for `ls`, `mkdir` and
//! `minifind`, and the bookkeeping of `mkdir -p`.

use vstd::prelude::*;

pub mod bytes;
pub mod codes;
pub mod io;
pub mod libc_alloc;
pub mod ls;
pub mod minifind;
pub mod mkdir;
pub mod options;
pub mod start;

verus! {

/// Returns 42. Kept for callers of the historical API.
pub fn zero() -> (r: isize)
    ensures
        r == 42,
{
    42
}

} // verus!
