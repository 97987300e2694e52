//! State machines for the parts of an exchange that take more than one poll.

pub mod body;
pub mod ids_chunk;

use hyper::body::Bytes;
use vstd::prelude::*;

verus! {

/// What one poll of a state machine tells its executor.
pub enum Progress<T> {
    /// Nothing can be done before the source wakes the task.
    Pending,
    /// Progress was made: hand control back to the scheduler and ask to be
    /// polled again at once.
    Yield,
    /// The machine is done.
    Ready(T),
}

/// What the executor saw when it polled what an exchange is waiting for:
/// the response at first, the response's body after that.
pub enum Event {
    /// Nothing yet.
    Pending,
    /// The round trip failed, or the body broke off.
    Failed(hyper::Error),
    /// The response arrived, with this status.
    Status(u16),
    /// The next fragment of the body, and the source's own lower bound on
    /// the bytes that are still to come after it.
    Data { fragment: Bytes, remaining: u64 },
    /// The body is complete.
    End,
}

} // verus!
