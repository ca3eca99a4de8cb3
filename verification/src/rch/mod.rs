//! Remote channels: channels whose halves can travel to the peer.

pub mod base;
pub mod bin;
pub mod broadcast;
pub mod buffer;
pub mod interlock;
pub mod mpsc;

use crate::chmux;
use vstd::prelude::*;

verus! {

/// Why a receiver takes no more values.
#[derive(Clone, Copy, Debug, PartialEq, Eq, Structural)]
pub enum ClosedReason {
    /// It was closed on purpose.
    Closed,
    /// It was dropped.
    Dropped,
}

/// Why values that were handed to a sender did not reach the far side.
#[derive(Clone, Copy, Debug, PartialEq, Eq, Structural)]
pub enum RemoteSendError {
    /// The port for a sent channel half could not be opened.
    Connect(chmux::ConnectError),
    /// The port for a received channel half could not be taken up.
    Listen(chmux::ListenerError),
    /// The queue held something that cannot be passed on.
    Forward,
}

/// What a step yields that may have to wait.
#[derive(Clone, Copy, Debug, PartialEq, Eq, Structural)]
pub enum Poll<T> {
    /// The result is here.
    Ready(T),
    /// Nothing yet: come back when something has changed.
    Pending,
}

} // verus!
