//! The stream of incoming connections.
//!
//! Awaiting the next item of that stream performs one `accept` on the listener. The item
//! yielded is the accepted connection without its peer address, or the error of the
//! `accept`. The stream is endless: no item is ever the end of the stream.

use vstd::prelude::*;

verus! {

/// The item that one finished `accept` contributes to the stream of incoming connections.
pub open spec fn accepted_item<S, A, E>(accepted: Result<(S, A), E>) -> Result<S, E> {
    match accepted {
        Ok((stream, _peer)) => Ok(stream),
        Err(err) => Err(err),
    }
}

/// Turns the result of one `accept` into the next item of the stream of incoming
/// connections.
///
/// The peer address is dropped; an error is passed on unchanged; the result is never
/// `None`, so the stream never ends.
pub fn incoming_item<S, A, E>(accepted: Result<(S, A), E>) -> (item: Option<Result<S, E>>)
    ensures
        item is Some,
        item == Some(accepted_item(accepted)),
{
    match accepted {
        Ok((stream, _peer)) => Some(Ok(stream)),
        Err(err) => Some(Err(err)),
    }
}

} // verus!
