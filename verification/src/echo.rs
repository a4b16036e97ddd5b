//! The steps of an echo server.

use vstd::prelude::*;

verus! {

/// How one attempt to read from a client ended.
#[derive(Debug, Clone, Copy, PartialEq, Eq)]
pub enum ReadOutcome {
    /// So many bytes came in; none means that the client closed the connection.
    Bytes(usize),
    /// The read failed.
    Failed,
    /// Nothing came in the time allowed.
    TimedOut,
}

/// What an echo server does after an attempt to read.
#[derive(Debug, Clone, Copy, PartialEq, Eq, Structural)]
pub enum EchoStep {
    /// Send the first so many bytes of the buffer back and read on.
    Echo(usize),
    /// The client is gone: end without error.
    Done,
    /// End with the error of the read.
    FailWithReadError,
    /// End with a time-out error.
    FailTimedOut,
}

/// The step that follows an attempt to read: what came in goes back as it
/// is; an empty read ends the exchange; a failure or a time-out ends it with
/// an error.
pub fn after_read(outcome: ReadOutcome) -> (step: EchoStep)
    ensures
        step == match outcome {
            ReadOutcome::Bytes(n) => if n > 0 {
                EchoStep::Echo(n)
            } else {
                EchoStep::Done
            },
            ReadOutcome::Failed => EchoStep::FailWithReadError,
            ReadOutcome::TimedOut => EchoStep::FailTimedOut,
        },
{
    match outcome {
        ReadOutcome::Bytes(n) => if n > 0 {
            EchoStep::Echo(n)
        } else {
            EchoStep::Done
        },
        ReadOutcome::Failed => EchoStep::FailWithReadError,
        ReadOutcome::TimedOut => EchoStep::FailTimedOut,
    }
}

} // verus!
