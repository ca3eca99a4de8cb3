//! The channel that a connection starts with, and from which all others are
//! reached: it moves values over one port.

use crate::chmux;
use crate::chmux::ports::{is_free, is_live, PortRegistry, PortState};
use crate::rch::Poll;
use crate::text::{prefixed, Describe};
use vstd::prelude::*;

verus! {

/// Receiving a value over a port failed.
#[derive(Clone, Copy, Debug, PartialEq, Eq, Structural)]
pub enum RecvError {
    /// The port did not deliver.
    Receive(chmux::RecvError),
    /// Bytes arrived that the codec could not turn into a value.
    Deserialize,
    /// The value named ports that the peer never opened.
    MissingPorts,
}

impl RecvError {
    /// Whether no later receive can succeed.
    pub open spec fn spec_is_final(&self) -> bool {
        match self {
            RecvError::Receive(err) => err.spec_is_final(),
            RecvError::Deserialize => false,
            RecvError::MissingPorts => false,
        }
    }

    /// Whether no later receive can succeed. A value that fails to decode
    /// spoils only itself; a lost port spoils everything after it.
    pub fn is_final(&self) -> (r: bool)
        ensures
            r == self.spec_is_final(),
    {
        match self {
            RecvError::Receive(err) => err.is_final(),
            RecvError::Deserialize => false,
            RecvError::MissingPorts => false,
        }
    }
}

impl Describe for RecvError {
    open spec fn description(&self) -> Seq<char> {
        match self {
            RecvError::Receive(err) => "receive error: "@ + err.description(),
            RecvError::Deserialize => "deserialization error"@,
            RecvError::MissingPorts => "ports required for deserialization were not received"@,
        }
    }

    fn describe(&self) -> (text: String) {
        match self {
            RecvError::Receive(err) => prefixed("receive error: ", err),
            RecvError::Deserialize => "deserialization error".to_owned(),
            RecvError::MissingPorts => "ports required for deserialization were not received".to_owned(),
        }
    }
}

/// Opening the first channel of a connection failed.
#[derive(Clone, Copy, Debug, PartialEq, Eq, Structural)]
pub enum ConnectError {
    /// Our request for a port failed.
    Connect(chmux::ConnectError),
    /// Taking up the peer's request failed.
    Listen(chmux::ListenerError),
    /// The peer never asked for a port.
    NoConnectRequest,
}

impl Describe for ConnectError {
    open spec fn description(&self) -> Seq<char> {
        match self {
            ConnectError::Connect(err) => "connect error: "@ + err.description(),
            ConnectError::Listen(err) => "listen error: "@ + err.description(),
            ConnectError::NoConnectRequest => "no connect request received"@,
        }
    }

    fn describe(&self) -> (text: String) {
        match self {
            ConnectError::Connect(err) => prefixed("connect error: ", err),
            ConnectError::Listen(err) => prefixed("listen error: ", err),
            ConnectError::NoConnectRequest => "no connect request received".to_owned(),
        }
    }
}

/// A value could not be made ready for sending.
#[derive(Clone, Copy, Debug, PartialEq, Eq, Structural)]
pub enum SerializeError {
    /// The value holds a channel half and no port number is left for it.
    PortsExhausted,
}

impl Describe for SerializeError {
    open spec fn description(&self) -> Seq<char> {
        "all local ports are in use"@
    }

    fn describe(&self) -> (text: String) {
        "all local ports are in use".to_owned()
    }
}

/// A value that arrived could not be rebuilt.
#[derive(Clone, Copy, Debug, PartialEq, Eq, Structural)]
pub enum DeserializeError {
    /// Two channel halves in one message name the same port.
    DuplicatePort(u32),
}

impl Describe for DeserializeError {
    open spec fn description(&self) -> Seq<char> {
        "a port is named twice in one message"@
    }

    fn describe(&self) -> (text: String) {
        "a port is named twice in one message".to_owned()
    }
}

/// Whether no number occurs twice.
pub open spec fn distinct(ports: Seq<u32>) -> bool {
    forall|i: int, j: int| 0 <= i < j < ports.len() ==> ports[i] != ports[j]
}

/// What a message that is being written asks of the multiplexer.
///
/// A channel half that is written into the message reserves a port number
/// here and writes the number in its place. Nothing is opened yet: once the
/// message is on its way, the caller asks the multiplexer for each reserved
/// port and hands it to the task that waits for it.
pub struct PortSerializer {
    registry: PortRegistry,
    requests: Vec<u32>,
}

impl PortSerializer {
    /// The port numbers as they stand.
    pub closed spec fn ports(&self) -> Seq<PortState> {
        self.registry@
    }

    /// The numbers reserved so far, in the order in which they were.
    pub closed spec fn requests(&self) -> Seq<u32> {
        self.requests@
    }

    /// Whether every reserved number stands for a port and none occurs twice.
    pub closed spec fn wf(&self) -> bool {
        &&& self.registry.wf()
        &&& distinct(self.requests@)
        &&& forall|i: int|
            0 <= i < self.requests@.len() ==> is_live(
                self.registry@,
                #[trigger] self.requests@[i] as int,
            )
    }

    /// Starts a message: nothing is reserved.
    pub fn new(registry: PortRegistry) -> (serializer: Self)
        requires
            registry.wf(),
        ensures
            serializer.wf(),
            serializer.ports() == registry@,
            serializer.requests() == Seq::<u32>::empty(),
    {
        PortSerializer { registry, requests: Vec::new() }
    }

    /// Whether `after` is what reserving a number makes of this state, with
    /// `r` as the result: the lowest free number is taken and noted, or none
    /// is free and nothing changes.
    pub open spec fn reserved(&self, after: &PortSerializer, r: Result<u32, SerializeError>) -> bool {
        match r {
            Ok(port) => {
                &&& is_free(self.ports(), port as int)
                &&& forall|lower: int| 0 <= lower < port ==> is_live(self.ports(), lower)
                &&& after.ports() == self.ports().update(
                    port as int,
                    PortState::Live { local_released: false, remote_released: false },
                )
                &&& after.requests() == self.requests().push(port)
            },
            Err(err) => {
                &&& err == SerializeError::PortsExhausted
                &&& forall|port: int| 0 <= port < self.ports().len() ==> is_live(self.ports(), port)
                &&& after.ports() == self.ports()
                &&& after.requests() == self.requests()
            },
        }
    }

    /// Reserves a port number for a channel half: the lowest that is free.
    /// Fails if none is.
    pub fn connect(&mut self) -> (r: Result<u32, SerializeError>)
        requires
            old(self).wf(),
        ensures
            final(self).wf(),
            old(self).reserved(final(self), r),
    {
        match self.registry.allocate() {
            Some(port) => {
                self.requests.push(port);
                Ok(port)
            },
            None => Err(SerializeError::PortsExhausted),
        }
    }

    /// Ends the message: gives back the port numbers and the ones to open,
    /// in the order in which they were reserved.
    pub fn finish(self) -> (r: (PortRegistry, Vec<u32>))
        requires
            self.wf(),
        ensures
            r.0.wf(),
            r.0@ == self.ports(),
            r.1@ == self.requests(),
            distinct(r.1@),
    {
        (self.registry, self.requests)
    }
}

/// What a message that is being read expects of the multiplexer.
///
/// A channel half that is read from the message finds a port number in its
/// place and notes it here. Nothing waits: once the message is read, the
/// caller takes up each noted port as the peer opens it and hands it to the
/// task that waits for it.
pub struct PortDeserializer {
    expected: Vec<u32>,
}

impl PortDeserializer {
    /// The numbers noted so far, in the order in which they were.
    pub closed spec fn expected(&self) -> Seq<u32> {
        self.expected@
    }

    /// Whether no number is noted twice.
    pub closed spec fn wf(&self) -> bool {
        distinct(self.expected@)
    }

    /// Starts a message: nothing is noted.
    pub fn new() -> (deserializer: Self)
        ensures
            deserializer.wf(),
            deserializer.expected() == Seq::<u32>::empty(),
    {
        PortDeserializer { expected: Vec::new() }
    }

    /// Whether `after` is what noting `port` makes of this state, with `r`
    /// as the result: the number is added, or it was there and nothing
    /// changes.
    pub open spec fn noted(&self, after: &PortDeserializer, port: u32, r: Result<(), DeserializeError>) -> bool {
        match r {
            Ok(_) => {
                &&& !self.expected().contains(port)
                &&& after.expected() == self.expected().push(port)
            },
            Err(err) => {
                &&& err == DeserializeError::DuplicatePort(port)
                &&& self.expected().contains(port)
                &&& after.expected() == self.expected()
            },
        }
    }

    /// Notes the port number of a channel half. Fails if another half of
    /// the same message has the number.
    pub fn accept(&mut self, port: u32) -> (r: Result<(), DeserializeError>)
        requires
            old(self).wf(),
        ensures
            final(self).wf(),
            old(self).noted(final(self), port, r),
    {
        let mut i: usize = 0;
        while i < self.expected.len()
            invariant
                self.wf(),
                i <= self.expected@.len(),
                self.expected@ == old(self).expected@,
                forall|j: int| 0 <= j < i ==> self.expected@[j] != port,
            decreases self.expected@.len() - i,
        {
            if self.expected[i] == port {
                return Err(DeserializeError::DuplicatePort(port));
            }
            i += 1;
        }
        self.expected.push(port);
        Ok(())
    }

    /// Ends the message: gives the ports to take up, in the order in which
    /// they were noted.
    pub fn finish(self) -> (ports: Vec<u32>)
        requires
            self.wf(),
        ensures
            ports@ == self.expected(),
            distinct(ports@),
    {
        self.expected
    }
}

/// What opening the first channel of a connection comes to.
///
/// Each side asks for one port, on which it will send, and takes up one
/// request, on whose port it will receive. The first failure decides, that
/// of the request before that of the taking up. If no request of the
/// other side can come any more, that is a failure too. Else the channel
/// is open when both ports are, and gives the port to send on and the port
/// to receive on.
pub open spec fn opened(
    asked: Poll<Result<u32, chmux::ConnectError>>,
    taken: Poll<Result<u32, chmux::ListenerError>>,
    listening: bool,
) -> Poll<Result<(u32, u32), ConnectError>> {
    match asked {
        Poll::Ready(Err(err)) => Poll::Ready(Err(ConnectError::Connect(err))),
        _ => match taken {
            Poll::Ready(Err(err)) => Poll::Ready(Err(ConnectError::Listen(err))),
            Poll::Ready(Ok(receive_on)) => match asked {
                Poll::Ready(Ok(send_on)) => Poll::Ready(Ok((send_on, receive_on))),
                _ => Poll::Pending,
            },
            Poll::Pending => if listening {
                Poll::Pending
            } else {
                Poll::Ready(Err(ConnectError::NoConnectRequest))
            },
        },
    }
}

/// One step of opening the first channel of a connection: takes what is
/// known of the request for a port and of the taking up of the other
/// side's request, and whether a request can still come. See [`opened`].
pub fn connect(
    asked: Poll<Result<u32, chmux::ConnectError>>,
    taken: Poll<Result<u32, chmux::ListenerError>>,
    listening: bool,
) -> (r: Poll<Result<(u32, u32), ConnectError>>)
    ensures
        r == opened(asked, taken, listening),
{
    match asked {
        Poll::Ready(Err(err)) => Poll::Ready(Err(ConnectError::Connect(err))),
        asked => match taken {
            Poll::Ready(Err(err)) => Poll::Ready(Err(ConnectError::Listen(err))),
            Poll::Ready(Ok(receive_on)) => match asked {
                Poll::Ready(Ok(send_on)) => Poll::Ready(Ok((send_on, receive_on))),
                _ => Poll::Pending,
            },
            Poll::Pending => if listening {
                Poll::Pending
            } else {
                Poll::Ready(Err(ConnectError::NoConnectRequest))
            },
        },
    }
}

} // verus!
