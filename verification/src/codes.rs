//! The `errno` values that the tools' decisions look at, taken from libc.

use vstd::prelude::*;

verus! {

/// The value of `EINTR` (interrupted system call) on Linux.
pub open spec fn spec_eintr() -> i32 {
    4
}

/// The value of `ENOENT` (no such file or directory) on Linux.
pub open spec fn spec_enoent() -> i32 {
    2
}

/// The value of `EEXIST` (file exists) on Linux.
pub open spec fn spec_eexist() -> i32 {
    17
}

/// Reads the constant `libc::EINTR`, which libc defines as 4 on Linux.
#[verifier::external_body]
pub(crate) fn eintr() -> (code: i32)
    ensures
        code == spec_eintr(),
{
    libc::EINTR
}

/// Reads the constant `libc::ENOENT`, which libc defines as 2 on Linux.
#[verifier::external_body]
pub(crate) fn enoent() -> (code: i32)
    ensures
        code == spec_enoent(),
{
    libc::ENOENT
}

/// Reads the constant `libc::EEXIST`, which libc defines as 17 on Linux.
#[verifier::external_body]
pub(crate) fn eexist() -> (code: i32)
    ensures
        code == spec_eexist(),
{
    libc::EEXIST
}

} // verus!
