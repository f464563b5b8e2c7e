//! The bounded channel on which quotes leave the producer.

use crate::quote::Quote;
use tokio::sync::mpsc::{Receiver, Sender};
use vstd::prelude::*;

verus! {

#[verifier::external_type_specification]
#[verifier::external_body]
#[verifier::reject_recursive_types(T)]
pub struct ExSender<T>(tokio::sync::mpsc::Sender<T>);

#[verifier::external_type_specification]
#[verifier::external_body]
#[verifier::reject_recursive_types(T)]
pub struct ExReceiver<T>(tokio::sync::mpsc::Receiver<T>);

/// Seconds of quotes at the maximum rate that the channel can buffer.
pub const BUFFER_SECS: usize = 10;

/// The largest capacity a channel can be opened with on this machine.
pub open spec fn max_channel_capacity() -> int {
    (usize::MAX / 8) as int
}

/// The number of quotes that the channel behind a sender buffers before a
/// send has to wait: what `Sender::max_capacity` of `tokio` reports.
pub uninterp spec fn channel_bound(tx: Sender<Quote>) -> nat;

/// Calls `mpsc::channel` of `tokio`.
///
/// Believed, not proved: the channel keeps the capacity it was opened with
/// as its bound. The call panics on a capacity of zero and on one above
/// `usize::MAX >> 3`, which the precondition leaves out.
#[verifier::external_body]
pub(crate) fn open_channel(capacity: usize) -> (ends: (Sender<Quote>, Receiver<Quote>))
    requires
        0 < capacity <= max_channel_capacity(),
    ensures
        channel_bound(ends.0) == capacity,
{
    tokio::sync::mpsc::channel(capacity)
}

/// Calls `Sender::max_capacity` of `tokio`.
///
/// Believed, not proved: it reports the channel's bound, which stays what
/// it was when the channel was opened.
#[verifier::external_body]
pub(crate) fn max_capacity(tx: &Sender<Quote>) -> (bound: usize)
    ensures
        bound == channel_bound(*tx),
{
    tx.max_capacity()
}

} // verus!
