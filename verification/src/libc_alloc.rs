//! The rule of the global allocator that hands requests to libc's `malloc`.

use vstd::prelude::*;

verus! {

/// The largest alignment that `malloc` guarantees: glibc aligns every block
/// to twice the size of a machine word, the smallest reasonable value on x86
/// and x86_64.
pub open spec fn malloc_alignment() -> nat {
    2 * vstd::layout::size_of::<usize>()
}

/// Whether the allocator can serve a layout of alignment `align` with
/// `malloc`; where it cannot, the allocation fails with a null pointer.
pub fn align_supported(align: usize) -> (r: bool)
    ensures
        r == (align <= malloc_alignment()),
{
    broadcast use vstd::layout::layout_of_primitives;

    assert(usize::BITS == 32 || usize::BITS == 64);
    align <= core::mem::size_of::<usize>() * 2
}

} // verus!
