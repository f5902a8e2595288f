//! The thread that reads the terminal.

use vstd::prelude::*;

verus! {

/// What waiting for input gives.
#[derive(Clone, Copy, Debug, PartialEq, Eq, Structural)]
pub enum Poll {
    Interrupted,
    Failed,
    /// What can be read: the terminal, which may also have hung up, and the
    /// wake-up call.
    Ready { input: bool, wakeup: bool },
}

/// What reading gives.
#[derive(Clone, Copy, Debug, PartialEq, Eq, Structural)]
pub enum Read {
    Interrupted,
    Failed,
    Bytes(usize),
}

/// What the thread does.
#[derive(Clone, Copy, Debug, PartialEq, Eq, Structural)]
pub enum ReaderStep {
    /// Waits for input.
    Poll,
    Read,
    /// Decodes so many bytes, then waits.
    Decode(usize),
    /// Reports the error and ends.
    Fail,
    End,
}

/// What follows the waiting. The wake-up call comes before any input.
pub fn after_poll(poll: Poll) -> (r: ReaderStep)
    ensures
        r == (match poll {
            Poll::Interrupted => ReaderStep::Poll,
            Poll::Failed => ReaderStep::Fail,
            Poll::Ready { input, wakeup } => if wakeup {
                ReaderStep::End
            } else if input {
                ReaderStep::Read
            } else {
                ReaderStep::Poll
            },
        }),
        r == polled(poll),
{
    match poll {
        Poll::Interrupted => ReaderStep::Poll,
        Poll::Failed => ReaderStep::Fail,
        Poll::Ready { input, wakeup } => {
            if wakeup {
                ReaderStep::End
            } else if input {
                ReaderStep::Read
            } else {
                ReaderStep::Poll
            }
        },
    }
}

/// What follows the reading. Nothing read is the end of input.
pub fn after_read(read: Read) -> (r: ReaderStep)
    ensures
        r == (match read {
            Read::Interrupted => ReaderStep::Poll,
            Read::Failed => ReaderStep::Fail,
            Read::Bytes(n) => if n == 0 {
                ReaderStep::End
            } else {
                ReaderStep::Decode(n)
            },
        }),
        r == got(read),
{
    match read {
        Read::Interrupted => ReaderStep::Poll,
        Read::Failed => ReaderStep::Fail,
        Read::Bytes(n) => {
            if n == 0 {
                ReaderStep::End
            } else {
                ReaderStep::Decode(n)
            }
        },
    }
}

/// What follows the waiting.
pub open spec fn polled(poll: Poll) -> ReaderStep {
    match poll {
        Poll::Failed => ReaderStep::Fail,
        Poll::Ready { wakeup: true, .. } => ReaderStep::End,
        Poll::Ready { input: true, wakeup: false } => ReaderStep::Read,
        _ => ReaderStep::Poll,
    }
}

/// What follows the reading.
pub open spec fn got(read: Read) -> ReaderStep {
    match read {
        Read::Failed => ReaderStep::Fail,
        Read::Interrupted => ReaderStep::Poll,
        Read::Bytes(n) => if n > 0 {
            ReaderStep::Decode(n)
        } else {
            ReaderStep::End
        },
    }
}

/// The reader ends when it is woken up, whatever can be read, and when there is
/// nothing more; it fails when the system does; an interruption changes nothing;
/// and it decodes exactly what it has read.
pub proof fn law_reading(input: bool, n: usize)
    ensures
        polled(Poll::Ready { input, wakeup: true }) == ReaderStep::End,
        polled(Poll::Ready { input: true, wakeup: false }) == ReaderStep::Read,
        polled(Poll::Ready { input: false, wakeup: false }) == ReaderStep::Poll,
        polled(Poll::Interrupted) == ReaderStep::Poll,
        polled(Poll::Failed) == ReaderStep::Fail,
        got(Read::Interrupted) == ReaderStep::Poll,
        got(Read::Failed) == ReaderStep::Fail,
        got(Read::Bytes(0)) == ReaderStep::End,
        n > 0 ==> got(Read::Bytes(n)) == ReaderStep::Decode(n),
{
}

} // verus!
