//! Failures of the multiplexer and of single ports.

use crate::text::{prefixed, Describe};
use vstd::prelude::*;

verus! {

/// The multiplexer as a whole has failed. Its run loop ends with one of these
/// and every port learns of it.
#[derive(Clone, Copy, Debug, PartialEq, Eq, Structural)]
pub enum ChMuxError<SinkError, StreamError> {
    /// Writing a frame to the transport failed.
    SinkError(SinkError),
    /// Reading a frame from the transport failed.
    StreamError(StreamError),
    /// The transport ended without a farewell from the peer.
    StreamClosed,
    /// The peer broke the protocol.
    Protocol,
    /// A frame was longer than the configured maximum.
    FrameTooLong,
}

impl<SinkError: Describe, StreamError: Describe> Describe for ChMuxError<SinkError, StreamError> {
    open spec fn description(&self) -> Seq<char> {
        match self {
            ChMuxError::SinkError(err) => "send error: "@ + err.description(),
            ChMuxError::StreamError(err) => "receive error: "@ + err.description(),
            ChMuxError::StreamClosed => "end of receive stream"@,
            ChMuxError::Protocol => "protocol error"@,
            ChMuxError::FrameTooLong => "frame exceeds maximum length"@,
        }
    }

    fn describe(&self) -> (text: String) {
        match self {
            ChMuxError::SinkError(err) => prefixed("send error: ", err),
            ChMuxError::StreamError(err) => prefixed("receive error: ", err),
            ChMuxError::StreamClosed => "end of receive stream".to_owned(),
            ChMuxError::Protocol => "protocol error".to_owned(),
            ChMuxError::FrameTooLong => "frame exceeds maximum length".to_owned(),
        }
    }
}

/// Opening a port toward the peer failed. Only the one attempt is lost.
#[derive(Clone, Copy, Debug, PartialEq, Eq, Structural)]
pub enum ConnectError {
    /// Every local port number is taken.
    LocalPortsExhausted,
    /// Too many of our requests are still unanswered.
    TooManyPendingConnectionRequests,
    /// The peer refused the request.
    Rejected,
    /// The multiplexer has failed or ended.
    ChMux,
}

impl Describe for ConnectError {
    open spec fn description(&self) -> Seq<char> {
        match self {
            ConnectError::LocalPortsExhausted => "all local ports are in use"@,
            ConnectError::TooManyPendingConnectionRequests => "too many connection requests are pending"@,
            ConnectError::Rejected => "connection has been rejected by server"@,
            ConnectError::ChMux => "multiplexer error"@,
        }
    }

    fn describe(&self) -> (text: String) {
        match self {
            ConnectError::LocalPortsExhausted => "all local ports are in use".to_owned(),
            ConnectError::TooManyPendingConnectionRequests => "too many connection requests are pending".to_owned(),
            ConnectError::Rejected => "connection has been rejected by server".to_owned(),
            ConnectError::ChMux => "multiplexer error".to_owned(),
        }
    }
}

/// Taking up a port that the peer opened failed.
#[derive(Clone, Copy, Debug, PartialEq, Eq, Structural)]
pub enum ListenerError {
    /// Every local port number is taken.
    LocalPortsExhausted,
    /// The multiplexer has failed or ended.
    MultiplexerError,
}

impl Describe for ListenerError {
    open spec fn description(&self) -> Seq<char> {
        match self {
            ListenerError::LocalPortsExhausted => "all local ports are in use"@,
            ListenerError::MultiplexerError => "multiplexer error"@,
        }
    }

    fn describe(&self) -> (text: String) {
        match self {
            ListenerError::LocalPortsExhausted => "all local ports are in use".to_owned(),
            ListenerError::MultiplexerError => "multiplexer error".to_owned(),
        }
    }
}

/// Receiving on a port failed.
#[derive(Clone, Copy, Debug, PartialEq, Eq, Structural)]
pub enum RecvError {
    /// The multiplexer has failed or ended.
    ChMux,
}

impl RecvError {
    /// Whether the port is lost for good.
    pub open spec fn spec_is_final(&self) -> bool {
        true
    }

    /// Whether the port is lost for good. A multiplexer that has failed
    /// does not come back.
    pub fn is_final(&self) -> (r: bool)
        ensures
            r == self.spec_is_final(),
    {
        true
    }
}

impl Describe for RecvError {
    open spec fn description(&self) -> Seq<char> {
        "multiplexer error"@
    }

    fn describe(&self) -> (text: String) {
        "multiplexer error".to_owned()
    }
}

} // verus!
