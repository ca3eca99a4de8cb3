//! Setting up a connection: the multiplexer over a transport, and the
//! first channel over the multiplexer.

use crate::chmux::{Cfg, ChMuxError};
use crate::framing::LengthPrefix;
use crate::rch::base;
use crate::rch::Poll;
use crate::text::{prefixed, Describe};
use vstd::prelude::*;
use vstd::std_specs::convert::FromSpecImpl;

verus! {

/// Setting up a connection failed.
#[derive(Clone, Copy, Debug, PartialEq, Eq, Structural)]
pub enum ConnectError<TransportSinkError, TransportStreamError> {
    /// The multiplexer failed.
    ChMux(ChMuxError<TransportSinkError, TransportStreamError>),
    /// The first channel could not be opened.
    RemoteConnect(base::ConnectError),
}

impl<TransportSinkError, TransportStreamError> ConnectError<
    TransportSinkError,
    TransportStreamError,
> {
    /// The failure of the multiplexer as a failure to connect.
    pub open spec fn of_chmux(
        err: ChMuxError<TransportSinkError, TransportStreamError>,
    ) -> Self {
        ConnectError::ChMux(err)
    }

    /// The failure to open the first channel as a failure to connect.
    pub open spec fn of_remote(err: base::ConnectError) -> Self {
        ConnectError::RemoteConnect(err)
    }
}

impl<TransportSinkError, TransportStreamError> From<
    ChMuxError<TransportSinkError, TransportStreamError>,
> for ConnectError<TransportSinkError, TransportStreamError> {
    fn from(err: ChMuxError<TransportSinkError, TransportStreamError>) -> (r: Self) {
        ConnectError::ChMux(err)
    }
}

impl<TransportSinkError, TransportStreamError> FromSpecImpl<
    ChMuxError<TransportSinkError, TransportStreamError>,
> for ConnectError<TransportSinkError, TransportStreamError> {
    open spec fn obeys_from_spec() -> bool {
        true
    }

    open spec fn from_spec(err: ChMuxError<TransportSinkError, TransportStreamError>) -> Self {
        Self::of_chmux(err)
    }
}

impl<TransportSinkError, TransportStreamError> From<base::ConnectError> for ConnectError<
    TransportSinkError,
    TransportStreamError,
> {
    fn from(err: base::ConnectError) -> (r: Self) {
        ConnectError::RemoteConnect(err)
    }
}

impl<TransportSinkError, TransportStreamError> FromSpecImpl<base::ConnectError> for ConnectError<
    TransportSinkError,
    TransportStreamError,
> {
    open spec fn obeys_from_spec() -> bool {
        true
    }

    open spec fn from_spec(err: base::ConnectError) -> Self {
        Self::of_remote(err)
    }
}

impl<TransportSinkError: Describe, TransportStreamError: Describe> Describe for ConnectError<
    TransportSinkError,
    TransportStreamError,
> {
    open spec fn description(&self) -> Seq<char> {
        match self {
            ConnectError::ChMux(err) => "chmux error: "@ + err.description(),
            ConnectError::RemoteConnect(err) => "channel connect failed: "@ + err.description(),
        }
    }

    fn describe(&self) -> (text: String) {
        match self {
            ConnectError::ChMux(err) => prefixed("chmux error: ", err),
            ConnectError::RemoteConnect(err) => prefixed("channel connect failed: ", err),
        }
    }
}

impl<TransportSinkError: Describe, TransportStreamError: Describe> ConnectError<
    TransportSinkError,
    TransportStreamError,
> {
    /// The error in words.
    pub fn to_string(&self) -> (text: String)
        ensures
            text@ == self.description(),
    {
        self.describe()
    }
}

/// An error of a transport that moves bytes, in the words of whoever
/// raised it.
#[derive(Clone, Debug)]
pub struct IoError {
    /// The words.
    pub message: String,
}

impl Describe for IoError {
    open spec fn description(&self) -> Seq<char> {
        self.message@
    }

    fn describe(&self) -> (text: String) {
        self.message.clone()
    }
}

/// How the two directions of a byte transport are cut into frames.
#[derive(Clone, Copy, Debug, PartialEq, Eq, Structural)]
pub struct IoFraming {
    /// The frames that are written.
    pub sink: LengthPrefix,
    /// The frames that are read.
    pub stream: LengthPrefix,
}

/// How a byte transport is buffered and cut into frames.
#[derive(Clone, Copy, Debug, PartialEq, Eq, Structural)]
pub struct BufferedIo {
    /// How many bytes are read ahead.
    pub read_capacity: usize,
    /// How many bytes are gathered before they are written.
    pub write_capacity: usize,
    /// The frames.
    pub framing: IoFraming,
}

/// The task that runs a connection, as far as it is known to have run.
///
/// Nothing moves on a connection unless it is driven: to build it does
/// nothing by itself.
#[must_use]
pub struct Connect<TransportSinkError, TransportStreamError> {
    outcome: Poll<Result<(), ChMuxError<TransportSinkError, TransportStreamError>>>,
}

impl<TransportSinkError, TransportStreamError> View for Connect<
    TransportSinkError,
    TransportStreamError,
> {
    type V = Poll<Result<(), ChMuxError<TransportSinkError, TransportStreamError>>>;

    closed spec fn view(&self) -> Self::V {
        self.outcome
    }
}

/// What a step of setting up a connection comes to.
///
/// The task that runs the connection is looked at first: if it has failed,
/// that is the result, whatever came of the channel. Else the attempt to
/// open the first channel decides: its failure is the result, its success
/// hands the task on together with the channel, and while it is under way
/// the task is handed on with nothing.
pub open spec fn framed_step<TransportSinkError, TransportStreamError, Tx, Rx>(
    connection: Connect<TransportSinkError, TransportStreamError>,
    opened: Poll<Result<(Tx, Rx), base::ConnectError>>,
) -> Result<
    (Connect<TransportSinkError, TransportStreamError>, Poll<(Tx, Rx)>),
    ConnectError<TransportSinkError, TransportStreamError>,
> {
    match connection@ {
        Poll::Ready(Err(err)) => Err(ConnectError::ChMux(err)),
        _ => match opened {
            Poll::Ready(Ok(halves)) => Ok((connection, Poll::Ready(halves))),
            Poll::Ready(Err(err)) => Err(ConnectError::RemoteConnect(err)),
            Poll::Pending => Ok((connection, Poll::Pending)),
        },
    }
}

impl<TransportSinkError, TransportStreamError> Connect<TransportSinkError, TransportStreamError> {
    /// The task of a connection that runs.
    pub fn running() -> (connection: Self)
        ensures
            connection@ == Poll::<
                Result<(), ChMuxError<TransportSinkError, TransportStreamError>>,
            >::Pending,
    {
        Connect { outcome: Poll::Pending }
    }

    /// The task of a connection that has ended, with what it ended in.
    pub fn ended(
        result: Result<(), ChMuxError<TransportSinkError, TransportStreamError>>,
    ) -> (connection: Self)
        ensures
            connection@ == Poll::Ready(result),
    {
        Connect { outcome: Poll::Ready(result) }
    }

    /// What the task has come to: nothing while the connection runs, then
    /// what it ended in.
    pub fn poll(&self) -> (outcome: &Poll<
        Result<(), ChMuxError<TransportSinkError, TransportStreamError>>,
    >)
        ensures
            *outcome == self@,
    {
        &self.outcome
    }

    /// One step of setting up a connection over a transport of frames.
    ///
    /// Takes the task that runs the multiplexer and what is known of the
    /// attempt to open the first channel. The first failure wins, that of
    /// the task before that of the channel. When the channel is open, its
    /// two halves come back with the task; the task must go on being
    /// driven.
    pub fn framed<Tx, Rx>(
        cfg: &Cfg,
        connection: Connect<TransportSinkError, TransportStreamError>,
        opened: Poll<Result<(Tx, Rx), base::ConnectError>>,
    ) -> (r: Result<
        (Connect<TransportSinkError, TransportStreamError>, Poll<(Tx, Rx)>),
        ConnectError<TransportSinkError, TransportStreamError>,
    >)
        requires
            cfg.valid(),
        ensures
            r == framed_step(connection, opened),
    {
        match connection.outcome {
            Poll::Ready(Err(err)) => Err(ConnectError::ChMux(err)),
            outcome => match opened {
                Poll::Ready(Ok(halves)) => Ok((Connect { outcome }, Poll::Ready(halves))),
                Poll::Ready(Err(err)) => Err(ConnectError::RemoteConnect(err)),
                Poll::Pending => Ok((Connect { outcome }, Poll::Pending)),
            },
        }
    }
}

impl Connect<IoError, IoError> {
    /// How a transport of bytes is cut into frames for a connection.
    ///
    /// Each frame gets a header of four bytes with its length, lowest byte
    /// first. What is written may be as long as the header can say; what
    /// is read may be as long as the settings allow.
    pub fn io(cfg: &Cfg) -> (framing: IoFraming)
        requires
            cfg.valid(),
        ensures
            framing.sink.limit() == u32::MAX,
            framing.stream.limit() == cfg.max_frame_length,
    {
        let max_recv_frame_length: usize = cfg.max_frame_length() as usize;
        IoFraming {
            sink: LengthPrefix::new(0xffff_ffff),
            stream: LengthPrefix::new(max_recv_frame_length),
        }
    }

    /// As [`Connect::io`], with the reads and writes of the transport
    /// gathered in buffers of `buffer` bytes each.
    pub fn io_buffered(cfg: &Cfg, buffer: usize) -> (io: BufferedIo)
        requires
            cfg.valid(),
        ensures
            io.read_capacity == buffer,
            io.write_capacity == buffer,
            io.framing.sink.limit() == u32::MAX,
            io.framing.stream.limit() == cfg.max_frame_length,
    {
        BufferedIo { read_capacity: buffer, write_capacity: buffer, framing: Self::io(cfg) }
    }
}

} // verus!
