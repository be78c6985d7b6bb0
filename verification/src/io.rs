//! Writers bound to file descriptors, and the decision that drives a
//! `write(2)` loop until every byte has been written.

use vstd::prelude::*;

use crate::codes::{eintr, spec_eintr};

verus! {

/// A writer corresponding to a file descriptor.
#[derive(Debug)]
pub struct FdWrite {
    pub fd: i32,
}

/// Returns a writer corresponding to standard output.
pub fn stdout() -> (w: FdWrite)
    ensures
        w.fd == 1,
{
    FdWrite { fd: 1 }
}

/// Returns a writer corresponding to standard error.
pub fn stderr() -> (w: FdWrite)
    ensures
        w.fd == 2,
{
    FdWrite { fd: 2 }
}

/// What a `write(2)` loop does next, after one call of `write` on the
/// bytes that are still to go.
pub enum WriteStep {
    /// This many bytes of the buffer have been written: call `write` again
    /// on the rest.
    Continue(usize),
    /// The loop is over without an error to report.
    Done,
    /// `write` failed with this `errno`: the loop is over.
    Failed(i32),
}

/// The step of the loop behind [`FdWrite`]: `written` of `len` bytes were
/// out when `write` returned `ret`, with `errno` set to `err` where `ret` is
/// negative.
pub open spec fn spec_write_step(len: int, written: int, ret: int, err: i32) -> WriteStep {
    if ret < 0 {
        if err == spec_eintr() {
            WriteStep::Continue(written as usize)
        } else {
            WriteStep::Failed(err)
        }
    } else if written + ret >= len {
        WriteStep::Done
    } else {
        WriteStep::Continue((written + ret) as usize)
    }
}

/// The step of the loop behind the panic handler's writer to standard
/// error, which stops quietly where the other one fails.
pub open spec fn spec_write_step_ignoring_errors(
    len: int,
    written: int,
    ret: int,
    err: i32,
) -> WriteStep {
    if ret < 0 {
        if err == spec_eintr() {
            WriteStep::Continue(written as usize)
        } else {
            WriteStep::Done
        }
    } else if ret > len - written {
        WriteStep::Done
    } else if written + ret == len {
        WriteStep::Done
    } else {
        WriteStep::Continue((written + ret) as usize)
    }
}

/// Decides what a writer to a file descriptor does after one call of
/// `write(2)`: `written` of the `len` bytes were out before the call, which
/// returned `ret` and left `err` in `errno`.
///
/// An interrupted call (`EINTR`) is repeated, any other error fails the
/// write, and a count advances the buffer by exactly that many bytes; the
/// write is done once every byte is out. `write` never reports more bytes
/// than it was given, and the buffer cannot advance past its end.
pub fn write_step(len: usize, written: usize, ret: isize, err: i32) -> (step: WriteStep)
    requires
        written < len,
        ret <= len - written,
    ensures
        step == spec_write_step(len as int, written as int, ret as int, err),
        step matches WriteStep::Continue(w) ==> written <= w < len,
        step matches WriteStep::Continue(w) ==> (ret < 0 && err == spec_eintr() && w == written)
            || (ret >= 0 && w == written + ret && w < len),
        step is Failed <==> (ret < 0 && err != spec_eintr()),
        step matches WriteStep::Failed(e) ==> e == err,
        step is Done <==> (ret >= 0 && written + ret == len),
{
    if ret < 0 {
        if err == eintr() {
            WriteStep::Continue(written)
        } else {
            WriteStep::Failed(err)
        }
    } else {
        let ret = ret as usize;
        if ret >= len - written {
            WriteStep::Done
        } else {
            WriteStep::Continue(written + ret)
        }
    }
}

/// Decides what the panic handler's writer to standard error does after
/// one call of `write(2)`, with the arguments of [`write_step`].
///
/// It never reports an error: an interrupted call is repeated, and any other
/// error, or a count larger than what was left, stops the writing quietly.
pub fn write_step_ignoring_errors(len: usize, written: usize, ret: isize, err: i32) -> (step:
    WriteStep)
    requires
        written < len,
    ensures
        step == spec_write_step_ignoring_errors(len as int, written as int, ret as int, err),
        !(step is Failed),
        step matches WriteStep::Continue(w) ==> written <= w < len,
        step matches WriteStep::Continue(w) ==> (ret < 0 && err == spec_eintr() && w == written)
            || (ret >= 0 && w == written + ret && w < len),
        step is Done <==> ((ret < 0 && err != spec_eintr()) || (ret >= 0 && written + ret >= len)),
{
    if ret < 0 {
        if err == eintr() {
            WriteStep::Continue(written)
        } else {
            WriteStep::Done
        }
    } else {
        let ret = ret as usize;
        if ret > len - written {
            WriteStep::Done
        } else if ret == len - written {
            WriteStep::Done
        } else {
            WriteStep::Continue(written + ret)
        }
    }
}

/// One step of the loop behind [`FdWrite`] goes on only after an interrupted
/// call, which moves nothing, or after a count that leaves bytes to write,
/// which moves the offset by exactly that count; it fails exactly when `write`
/// failed with another `errno`, reporting that `errno`; and it is done exactly
/// when the count reaches the end of the buffer.
pub proof fn law_write_step(len: int, written: int, ret: int, err: i32)
    requires
        0 <= written < len,
        len <= usize::MAX,
        ret <= len - written,
    ensures
        ({
            let step = spec_write_step(len, written, ret, err);
            &&& step matches WriteStep::Continue(w) ==> (ret < 0 && err == spec_eintr() && w
                == written) || (ret >= 0 && w == written + ret && w < len)
            &&& step is Failed <==> (ret < 0 && err != spec_eintr())
            &&& step matches WriteStep::Failed(e) ==> e == err
            &&& step is Done <==> (ret >= 0 && written + ret == len)
        }),
{
}

/// One step of the panic handler's writer never fails: it goes on only after
/// an interrupted call, which moves nothing, or after a count that leaves
/// bytes to write, which moves the offset by exactly that count; any other
/// error, and a count that reaches or passes the end, ends the writing.
pub proof fn law_write_step_ignoring_errors(len: int, written: int, ret: int, err: i32)
    requires
        0 <= written < len,
        len <= usize::MAX,
    ensures
        ({
            let step = spec_write_step_ignoring_errors(len, written, ret, err);
            &&& !(step is Failed)
            &&& step matches WriteStep::Continue(w) ==> (ret < 0 && err == spec_eintr() && w
                == written) || (ret >= 0 && w == written + ret && w < len)
            &&& step is Done <==> ((ret < 0 && err != spec_eintr()) || (ret >= 0 && written + ret
                >= len))
        }),
{
}

/// Where the loop behind [`FdWrite`] stands after the `write(2)` calls
/// `calls`, each a pair of what `write` returned and the `errno` it left,
/// starting with `written` of `len` bytes out. The loop stops at the first
/// step that is not [`WriteStep::Continue`].
pub open spec fn write_run(len: int, written: int, calls: Seq<(int, i32)>) -> WriteStep
    decreases calls.len(),
{
    if calls.len() == 0 {
        WriteStep::Continue(written as usize)
    } else {
        match spec_write_step(len, written, calls[0].0, calls[0].1) {
            WriteStep::Continue(w) => write_run(len, w as int, calls.drop_first()),
            step => step,
        }
    }
}

/// The bytes that the calls `calls` report as written: the counts of the
/// calls that did not fail.
pub open spec fn accepted(calls: Seq<(int, i32)>) -> int
    decreases calls.len(),
{
    if calls.len() == 0 {
        0
    } else {
        (if calls[0].0 >= 0 { calls[0].0 } else { 0 }) + accepted(calls.drop_first())
    }
}

proof fn lemma_accepted_nonneg(calls: Seq<(int, i32)>)
    ensures
        accepted(calls) >= 0,
    decreases calls.len(),
{
    if calls.len() > 0 {
        lemma_accepted_nonneg(calls.drop_first());
    }
}

/// The write loop neither skips nor repeats a byte: while it goes on, the
/// offset it has reached is where it started plus every count that `write`
/// reported, and interrupted calls move nothing.
pub proof fn law_write_offset_is_accepted(len: int, written: int, calls: Seq<(int, i32)>)
    requires
        0 <= written < len,
        len <= usize::MAX,
    ensures
        write_run(len, written, calls) matches WriteStep::Continue(w) ==> w == written + accepted(
            calls,
        ),
    decreases calls.len(),
{
    if calls.len() > 0 {
        match spec_write_step(len, written, calls[0].0, calls[0].1) {
            WriteStep::Continue(w) => {
                law_write_offset_is_accepted(len, w as int, calls.drop_first());
            },
            _ => {},
        }
    }
}

/// The write loop reports success exactly when the counts that `write`
/// reported cover the bytes that were left: a run that went on until its last
/// call is done after that call if and only if the counts reach the end.
pub proof fn law_write_done_iff_all_written(len: int, written: int, calls: Seq<(int, i32)>)
    requires
        0 <= written < len,
        len <= usize::MAX,
        calls.len() > 0,
        write_run(len, written, calls.drop_last()) is Continue,
    ensures
        write_run(len, written, calls) is Done <==> written + accepted(calls) >= len,
    decreases calls.len(),
{
    if calls.len() == 1 {
        assert(calls.drop_last().len() == 0);
        assert(calls.drop_first().len() == 0);
        assert(accepted(calls.drop_first()) == 0);
        assert(calls[0] == calls.last());
        reveal_with_fuel(write_run, 2);
    } else {
        let step = spec_write_step(len, written, calls[0].0, calls[0].1);
        assert(calls.drop_last()[0] == calls[0]);
        assert(calls.drop_last().drop_first() =~= calls.drop_first().drop_last());
        match step {
            WriteStep::Continue(w) => {
                assert(w < len);
                assert(w == written + (if calls[0].0 >= 0 { calls[0].0 } else { 0 }));
                assert(calls.drop_first().last() == calls.last());
                law_write_done_iff_all_written(len, w as int, calls.drop_first());
            },
            _ => {
                assert(write_run(len, written, calls.drop_last()) == step);
            },
        }
    }
}

} // verus!
