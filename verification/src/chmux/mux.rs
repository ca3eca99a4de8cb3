//! The multiplexer as a state machine.
//!
//! A multiplexer owns nothing but its own state. Whoever runs it reads
//! frames from the transport and hands them in, and takes the frames that
//! the multiplexer wants written and hands them to the transport. Between
//! the two, the handles of ports call in to connect, accept, send and
//! receive.
//!
//! Every port has a window at each end: the number of bytes that the other
//! side may still send before this one has made room. A sender that has
//! used up its credit waits, and so one slow port holds up no other.

use crate::chmux::cfg::Cfg;
use crate::chmux::error::{ChMuxError, ConnectError, ListenerError, RecvError};
use crate::chmux::frame::{as_slice, contents, from_vec};
use bytes::Bytes;
use crate::chmux::msg::{encoded, fields, frame_fields, is_message, Msg, DATA_OVERHEAD};
use crate::chmux::ports::{is_free, is_live, PortRegistry, PortState};
use crate::rch::Poll;
use std::collections::VecDeque;
use vstd::prelude::*;

verus! {

/// A port that is open, as one side sees it.
pub struct OpenView {
    /// The number of the port at the other side.
    pub remote: u32,
    /// How many bytes may still be sent before the other side has to make
    /// room.
    pub credit: nat,
    /// What has come in and has not been received yet, oldest first.
    pub inbox: Seq<Vec<u8>>,
    /// How many bytes the other side may still send before this one has to
    /// make room.
    pub window: nat,
    /// Whether this side has said that it sends no more.
    pub sent_finish: bool,
    /// Whether this side has said that it takes no more.
    pub sent_close: bool,
    /// Whether the other side has said that it sends no more.
    pub got_finish: bool,
    /// Whether the other side has said that it takes no more.
    pub got_close: bool,
}

/// What a port number stands for in a multiplexer.
pub enum LinkView {
    /// Nothing.
    Idle,
    /// A request to the other side that has not been answered.
    Requested,
    /// A request that the other side refused; the one who asked has not
    /// been told yet.
    Refused,
    /// An open port.
    Open(OpenView),
}

/// A request of the other side for a port.
#[derive(Clone, Copy, Debug, PartialEq, Eq, Structural)]
pub struct Request {
    /// The number of the port at the side that asks.
    pub client_port: u32,
    /// How many bytes that side takes in before it has to make room.
    pub window: u32,
}

/// Sending on a port failed. The bytes come back with the reason.
#[derive(Clone, Copy, Debug, PartialEq, Eq, Structural)]
pub enum SendError {
    /// The multiplexer has ended.
    ChMux,
    /// The port is not open for sending: it was never opened, this side
    /// has finished it, or the other side takes no more.
    Closed,
    /// The bytes do not fit into one frame.
    TooLong,
    /// The other side has no room now. Try again when it has made some.
    NoCredit,
}

/// How many bytes wait in an inbox.
pub open spec fn queued(inbox: Seq<Vec<u8>>) -> nat
    decreases inbox.len(),
{
    if inbox.len() == 0 {
        0
    } else {
        inbox[0]@.len() + queued(inbox.skip(1))
    }
}

/// What comes in last adds its length to what waits.
pub proof fn lemma_queued_push(inbox: Seq<Vec<u8>>, payload: Vec<u8>)
    ensures
        queued(inbox.push(payload)) == queued(inbox) + payload@.len(),
    decreases inbox.len(),
{
    let pushed = inbox.push(payload);
    if inbox.len() == 0 {
        assert(pushed[0] == payload);
        assert(pushed.skip(1) =~= Seq::<Vec<u8>>::empty());
        assert(queued(pushed.skip(1)) == 0);
    } else {
        lemma_queued_push(inbox.skip(1), payload);
        assert(pushed[0] == inbox[0]);
        assert(pushed.skip(1) =~= inbox.skip(1).push(payload));
    }
}

impl OpenView {
    /// A port as it is when it has just been opened.
    pub open spec fn fresh(remote: u32, credit: u32, window: u32) -> OpenView {
        OpenView {
            remote,
            credit: credit as nat,
            inbox: Seq::empty(),
            window: window as nat,
            sent_finish: false,
            sent_close: false,
            got_finish: false,
            got_close: false,
        }
    }

    /// Whether this side has let the port go: it neither sends nor takes
    /// any more.
    pub open spec fn local_done(self) -> bool {
        self.sent_finish && self.sent_close
    }

    /// Whether the other side has let the port go.
    pub open spec fn remote_done(self) -> bool {
        self.got_finish && self.got_close
    }

    /// What the port's number stands for in the registry of numbers.
    pub open spec fn port_state(self) -> PortState {
        if self.local_done() && self.remote_done() {
            PortState::Free
        } else {
            PortState::Live {
                local_released: self.local_done(),
                remote_released: self.remote_done(),
            }
        }
    }

    /// What the port's number stands for in the multiplexer: the port,
    /// until both sides have let it go.
    pub open spec fn link(self) -> LinkView {
        if self.local_done() && self.remote_done() {
            LinkView::Idle
        } else {
            LinkView::Open(self)
        }
    }
}

/// Something that one side of a port says once about the port.
#[derive(Clone, Copy, Debug, PartialEq, Eq, Structural)]
pub enum Flag {
    /// This side sends no more.
    SentFinish,
    /// This side takes no more.
    SentClose,
    /// The other side sends no more.
    GotFinish,
    /// The other side takes no more.
    GotClose,
}

impl OpenView {
    /// Whether something has been said.
    pub open spec fn has(self, flag: Flag) -> bool {
        match flag {
            Flag::SentFinish => self.sent_finish,
            Flag::SentClose => self.sent_close,
            Flag::GotFinish => self.got_finish,
            Flag::GotClose => self.got_close,
        }
    }

    /// The port after something has been said. A side that takes no more
    /// drops what it has not received.
    pub open spec fn marked(self, flag: Flag) -> OpenView {
        match flag {
            Flag::SentFinish => OpenView { sent_finish: true, ..self },
            Flag::SentClose => OpenView { sent_close: true, inbox: Seq::empty(), ..self },
            Flag::GotFinish => OpenView { got_finish: true, ..self },
            Flag::GotClose => OpenView { got_close: true, ..self },
        }
    }

    /// The port after bytes have come in. They use up room whether or not
    /// they are kept; a side that takes no more does not keep them.
    pub open spec fn took(self, payload: Vec<u8>) -> OpenView {
        OpenView {
            inbox: if self.sent_close {
                self.inbox
            } else {
                self.inbox.push(payload)
            },
            window: (self.window - payload@.len()) as nat,
            ..self
        }
    }
}

/// What a multiplexer holds.
pub struct MuxView<SinkError, StreamError> {
    /// The settings.
    pub cfg: Cfg,
    /// What each port number stands for.
    pub links: Seq<LinkView>,
    /// The requests of the other side that wait to be taken up, oldest
    /// first.
    pub requests: Seq<Request>,
    /// How many requests of this side wait for an answer.
    pub pending: nat,
    /// The messages that wait to be written to the transport, oldest
    /// first.
    pub outbox: Seq<Msg>,
    /// Whether this side has said that it has nothing more to say.
    pub sent_goodbye: bool,
    /// Whether the other side has said so.
    pub got_goodbye: bool,
    /// How many handles use the multiplexer: those that open and take up
    /// ports, and the halves of the ports.
    pub handles: nat,
    /// How the multiplexer has ended, if it has.
    pub status: Option<Result<(), ChMuxError<SinkError, StreamError>>>,
}

impl<SinkError, StreamError> MuxView<SinkError, StreamError> {
    /// The state with a message more to write.
    pub open spec fn sending(self, msg: Msg) -> Self {
        MuxView { outbox: self.outbox.push(msg), ..self }
    }

    /// The state with a port number standing for something else.
    pub open spec fn with_link(self, port: int, link: LinkView) -> Self {
        MuxView { links: self.links.update(port, link), ..self }
    }

    /// The state after the multiplexer has ended in `err`.
    pub open spec fn failed(self, err: ChMuxError<SinkError, StreamError>) -> Self {
        MuxView { status: Some(Err(err)), ..self }
    }

    /// Whether the multiplexer runs.
    pub open spec fn running(self) -> bool {
        self.status is None
    }

    /// The open port that a number stands for, if it stands for one.
    pub open spec fn open_port(self, port: int) -> Option<OpenView> {
        if 0 <= port < self.links.len() {
            match self.links[port] {
                LinkView::Open(open) => Some(open),
                _ => None,
            }
        } else {
            None
        }
    }

    /// The state and the port numbers after something has been said about
    /// an open port.
    pub open spec fn marking(self, ports: Seq<PortState>, port: int, flag: Flag) -> (
        Self,
        Seq<PortState>,
    ) {
        let open = self.open_port(port)->Some_0.marked(flag);
        (self.with_link(port, open.link()), ports.update(port, open.port_state()))
    }

    /// The state and the port numbers after a message of the other side
    /// has been taken in.
    ///
    /// A request waits to be taken up, or is refused at once if too many
    /// wait. An answer opens or refuses the port that was asked for. Bytes
    /// go into the inbox of their port if the port has announced room for
    /// them. Credit adds to what may be sent. What the other side says
    /// about a port is noted, and the port's number is given up when both
    /// sides have let the port go. A message that does not fit the state
    /// breaks the protocol and ends the multiplexer. A multiplexer that
    /// has ended takes nothing in.
    pub open spec fn handled(self, ports: Seq<PortState>, msg: Msg) -> (Self, Seq<PortState>) {
        if !self.running() {
            (self, ports)
        } else {
            match msg {
                Msg::Open { client_port, window } => if self.requests.len()
                    >= self.cfg.max_pending_connects {
                    (self.sending(Msg::Rejected { client_port }), ports)
                } else {
                    (
                        MuxView {
                            requests: self.requests.push(Request { client_port, window }),
                            ..self
                        },
                        ports,
                    )
                },
                Msg::Accepted { client_port, server_port, window } => if client_port
                    < self.links.len() && self.links[client_port as int] is Requested {
                    (
                        MuxView {
                            pending: if self.pending > 0 {
                                (self.pending - 1) as nat
                            } else {
                                0
                            },
                            ..self.with_link(
                                client_port as int,
                                LinkView::Open(
                                    OpenView::fresh(server_port, window, self.cfg.receive_buffer),
                                ),
                            )
                        },
                        ports,
                    )
                } else {
                    (self.failed(ChMuxError::Protocol), ports)
                },
                Msg::Rejected { client_port } => if client_port < self.links.len()
                    && self.links[client_port as int] is Requested {
                    (
                        MuxView {
                            pending: if self.pending > 0 {
                                (self.pending - 1) as nat
                            } else {
                                0
                            },
                            ..self.with_link(client_port as int, LinkView::Refused)
                        },
                        ports,
                    )
                } else {
                    (self.failed(ChMuxError::Protocol), ports)
                },
                Msg::Data { port, payload } => match self.open_port(port as int) {
                    Some(open) => if !open.got_finish && payload@.len() <= open.window {
                        (self.with_link(port as int, LinkView::Open(open.took(payload))), ports)
                    } else {
                        (self.failed(ChMuxError::Protocol), ports)
                    },
                    None => (self.failed(ChMuxError::Protocol), ports),
                },
                Msg::Credit { port, bytes } => match self.open_port(port as int) {
                    Some(open) => if open.credit + bytes <= u32::MAX {
                        (
                            self.with_link(
                                port as int,
                                LinkView::Open(OpenView { credit: open.credit + bytes as nat, ..open }),
                            ),
                            ports,
                        )
                    } else {
                        (self.failed(ChMuxError::Protocol), ports)
                    },
                    None => (self.failed(ChMuxError::Protocol), ports),
                },
                Msg::Finish { port } => match self.open_port(port as int) {
                    Some(open) => if !open.got_finish {
                        self.marking(ports, port as int, Flag::GotFinish)
                    } else {
                        (self.failed(ChMuxError::Protocol), ports)
                    },
                    None => (self.failed(ChMuxError::Protocol), ports),
                },
                Msg::Close { port } => match self.open_port(port as int) {
                    Some(open) => if !open.got_close {
                        self.marking(ports, port as int, Flag::GotClose)
                    } else {
                        (self.failed(ChMuxError::Protocol), ports)
                    },
                    None => (self.failed(ChMuxError::Protocol), ports),
                },
                Msg::Goodbye => (
                    MuxView {
                        got_goodbye: true,
                        status: if self.sent_goodbye {
                            Some(Ok(()))
                        } else {
                            None
                        },
                        ..self
                    },
                    ports,
                ),
            }
        }
    }

    /// The longest payload that fits into one frame.
    pub open spec fn max_payload(self) -> nat {
        (self.cfg.max_frame_length - DATA_OVERHEAD) as nat
    }

    /// Whether the port numbers of the registry say what the links say:
    /// the number of a request stands for a port that nobody has let go,
    /// that of an open port for one that is let go as far as its two sides
    /// have said.
    pub open spec fn agrees(self, ports: Seq<PortState>) -> bool {
        &&& ports.len() == self.links.len()
        &&& forall|port: int|
            0 <= port < self.links.len() ==> match #[trigger] self.links[port] {
                LinkView::Idle => true,
                LinkView::Requested => ports[port] == (PortState::Live {
                    local_released: false,
                    remote_released: false,
                }),
                LinkView::Refused => ports[port] == (PortState::Live {
                    local_released: false,
                    remote_released: false,
                }),
                LinkView::Open(open) => ports[port] == open.port_state(),
            }
    }

    /// Whether everything is within its bounds: there is a link for each
    /// port number, no message that waits is longer than a frame may be,
    /// and no port holds more than it has announced room for.
    pub open spec fn wf(self) -> bool {
        &&& self.cfg.valid()
        &&& self.links.len() == self.cfg.max_ports
        &&& self.pending <= usize::MAX
        &&& forall|i: int|
            0 <= i < self.outbox.len() ==> (#[trigger] self.outbox[i]).spec_len()
                <= self.cfg.max_frame_length
        &&& forall|port: int|
            0 <= port < self.links.len() ==> match #[trigger] self.links[port] {
                LinkView::Open(open) => {
                    &&& open.window + queued(open.inbox) <= self.cfg.receive_buffer
                    &&& open.credit <= u32::MAX
                    &&& !(open.local_done() && open.remote_done())
                },
                _ => true,
            }
    }
}

/// The state of one port number.
struct Link {
    state: LinkState,
    remote: u32,
    credit: u32,
    inbox: VecDeque<Vec<u8>>,
    window: u32,
    sent_finish: bool,
    sent_close: bool,
    got_finish: bool,
    got_close: bool,
}

#[derive(Clone, Copy, PartialEq, Eq, Structural)]
enum LinkState {
    Idle,
    Requested,
    Refused,
    Open,
}

impl View for Link {
    type V = LinkView;

    closed spec fn view(&self) -> LinkView {
        match self.state {
            LinkState::Idle => LinkView::Idle,
            LinkState::Requested => LinkView::Requested,
            LinkState::Refused => LinkView::Refused,
            LinkState::Open => LinkView::Open(
                OpenView {
                    remote: self.remote,
                    credit: self.credit as nat,
                    inbox: self.inbox@,
                    window: self.window as nat,
                    sent_finish: self.sent_finish,
                    sent_close: self.sent_close,
                    got_finish: self.got_finish,
                    got_close: self.got_close,
                },
            ),
        }
    }
}

impl Link {
    fn idle() -> (link: Link)
        ensures
            link@ == LinkView::Idle,
    {
        Link {
            state: LinkState::Idle,
            remote: 0,
            credit: 0,
            inbox: VecDeque::new(),
            window: 0,
            sent_finish: false,
            sent_close: false,
            got_finish: false,
            got_close: false,
        }
    }

    fn requested() -> (link: Link)
        ensures
            link@ == LinkView::Requested,
    {
        Link {
            state: LinkState::Requested,
            remote: 0,
            credit: 0,
            inbox: VecDeque::new(),
            window: 0,
            sent_finish: false,
            sent_close: false,
            got_finish: false,
            got_close: false,
        }
    }

    fn refused() -> (link: Link)
        ensures
            link@ == LinkView::Refused,
    {
        Link {
            state: LinkState::Refused,
            remote: 0,
            credit: 0,
            inbox: VecDeque::new(),
            window: 0,
            sent_finish: false,
            sent_close: false,
            got_finish: false,
            got_close: false,
        }
    }

    fn open(remote: u32, credit: u32, window: u32) -> (link: Link)
        ensures
            link@ == LinkView::Open(OpenView::fresh(remote, credit, window)),
    {
        Link {
            state: LinkState::Open,
            remote,
            credit,
            inbox: VecDeque::new(),
            window,
            sent_finish: false,
            sent_close: false,
            got_finish: false,
            got_close: false,
        }
    }
}

/// Many ports over one transport.
pub struct ChMux<SinkError, StreamError> {
    cfg: Cfg,
    links: Vec<Link>,
    requests: VecDeque<Request>,
    pending: usize,
    outbox: VecDeque<Msg>,
    sent_goodbye: bool,
    got_goodbye: bool,
    handles: usize,
    status: Option<Result<(), ChMuxError<SinkError, StreamError>>>,
}

impl<SinkError, StreamError> View for ChMux<SinkError, StreamError> {
    type V = MuxView<SinkError, StreamError>;

    closed spec fn view(&self) -> MuxView<SinkError, StreamError> {
        MuxView {
            cfg: self.cfg,
            links: Seq::new(self.links@.len(), |i: int| self.links@[i]@),
            requests: self.requests@,
            pending: self.pending as nat,
            outbox: self.outbox@,
            sent_goodbye: self.sent_goodbye,
            got_goodbye: self.got_goodbye,
            handles: self.handles as nat,
            status: self.status,
        }
    }
}

/// A port that nobody has let go.
pub open spec fn live() -> PortState {
    PortState::Live { local_released: false, remote_released: false }
}

impl<SinkError, StreamError> ChMux<SinkError, StreamError> {
    /// Whether everything is within its bounds.
    pub open spec fn wf(&self) -> bool {
        self@.wf()
    }

    /// A multiplexer with these settings, with no port open and nothing to
    /// write. To build one with settings that are not valid is a mistake of
    /// the program.
    pub fn new(cfg: Cfg) -> (mux: Self)
        requires
            cfg.valid(),
        ensures
            mux.wf(),
            mux@ == (MuxView::<SinkError, StreamError> {
                cfg,
                links: Seq::new(cfg.max_ports as nat, |i: int| LinkView::Idle),
                requests: Seq::empty(),
                pending: 0,
                outbox: Seq::empty(),
                sent_goodbye: false,
                got_goodbye: false,
                handles: 0,
                status: None,
            }),
    {
        let mut links: Vec<Link> = Vec::new();
        let mut n: u32 = 0;
        while n < cfg.max_ports
            invariant
                n <= cfg.max_ports,
                links@.len() == n,
                forall|i: int| 0 <= i < n ==> (#[trigger] links@[i])@ == LinkView::Idle,
            decreases cfg.max_ports - n,
        {
            links.push(Link::idle());
            n += 1;
        }
        let mux = ChMux {
            cfg,
            links,
            requests: VecDeque::new(),
            pending: 0,
            outbox: VecDeque::new(),
            sent_goodbye: false,
            got_goodbye: false,
            handles: 0,
            status: None,
        };
        assert(mux@.links =~= Seq::new(cfg.max_ports as nat, |i: int| LinkView::Idle));
        mux
    }

    /// The settings.
    pub fn cfg(&self) -> (cfg: Cfg)
        ensures
            cfg == self@.cfg,
    {
        self.cfg
    }

    /// How the multiplexer has ended, if it has. The task that runs the
    /// multiplexer is done when this is there and nothing is left to
    /// write.
    pub fn status(&self) -> (status: &Option<Result<(), ChMuxError<SinkError, StreamError>>>)
        ensures
            *status == self@.status,
    {
        &self.status
    }

    /// Puts something else in the place of a port number.
    fn set_link(&mut self, port: usize, link: Link)
        requires
            port < old(self)@.links.len(),
        ensures
            final(self)@ == old(self)@.with_link(port as int, link@),
    {
        self.links.set(port, link);
        assert(self@.links =~= old(self)@.links.update(port as int, link@));
    }

    /// Queues a message for the transport.
    fn post(&mut self, msg: Msg)
        ensures
            final(self)@ == old(self)@.sending(msg),
            old(self).wf() && msg.spec_len() <= old(self)@.cfg.max_frame_length ==> final(self).wf(),
    {
        self.outbox.push_back(msg);
        assert(self@.links =~= old(self)@.links);
    }

    /// Ends the multiplexer because the other side broke the protocol.
    fn violated(&mut self)
        ensures
            final(self)@ == old(self)@.failed(ChMuxError::Protocol),
    {
        self.status = Some(Err(ChMuxError::Protocol));
    }

    /// Asks the other side for a port. Gives the number of the port at
    /// this side; [`ChMux::poll_connect`] tells what came of it.
    ///
    /// Fails if the multiplexer has ended, if too many requests wait for
    /// an answer, or if no port number is free. Then nothing changes.
    pub fn connect(&mut self, ports: &mut PortRegistry) -> (r: Result<u32, ConnectError>)
        requires
            old(self).wf(),
            old(ports).wf(),
            old(self)@.agrees(old(ports)@),
        ensures
            final(self).wf(),
            final(ports).wf(),
            final(self)@.agrees(final(ports)@),
            match r {
                Ok(port) => {
                    &&& old(self)@.running()
                    &&& old(self)@.pending < old(self)@.cfg.max_pending_connects
                    &&& is_free(old(ports)@, port as int)
                    &&& forall|lower: int| 0 <= lower < port ==> is_live(old(ports)@, lower)
                    &&& final(ports)@ == old(ports)@.update(port as int, live())
                    &&& final(self)@ == (MuxView {
                        pending: old(self)@.pending + 1,
                        ..old(self)@.with_link(port as int, LinkView::Requested).sending(
                            Msg::Open { client_port: port, window: old(self)@.cfg.receive_buffer },
                        )
                    })
                },
                Err(err) => {
                    &&& final(self)@ == old(self)@
                    &&& final(ports)@ == old(ports)@
                    &&& err == (if !old(self)@.running() {
                        ConnectError::ChMux
                    } else if old(self)@.pending >= old(self)@.cfg.max_pending_connects {
                        ConnectError::TooManyPendingConnectionRequests
                    } else {
                        ConnectError::LocalPortsExhausted
                    })
                    &&& err == ConnectError::LocalPortsExhausted ==> forall|port: int|
                        0 <= port < old(ports)@.len() ==> is_live(old(ports)@, port)
                },
            },
    {
        if self.status.is_some() {
            return Err(ConnectError::ChMux);
        }
        if self.pending >= self.cfg.max_pending_connects as usize {
            return Err(ConnectError::TooManyPendingConnectionRequests);
        }
        match ports.allocate() {
            None => Err(ConnectError::LocalPortsExhausted),
            Some(port) => {
                assert(old(self)@.links[port as int] is Idle);
                self.set_link(port as usize, Link::requested());
                self.post(Msg::Open { client_port: port, window: self.cfg.receive_buffer });
                self.pending += 1;
                Ok(port)
            },
        }
    }

    /// Tells what came of a request for a port.
    ///
    /// While the request waits for its answer this gives nothing, unless
    /// the multiplexer has ended. A request that was refused or lost gives
    /// its port number back. For a number that stands for no request it
    /// says that the port is open if it is, and else that the multiplexer
    /// knows of nothing.
    pub fn poll_connect(&mut self, port: u32, ports: &mut PortRegistry) -> (r: Poll<
        Result<(), ConnectError>,
    >)
        requires
            old(self).wf(),
            old(ports).wf(),
            old(self)@.agrees(old(ports)@),
        ensures
            final(self).wf(),
            final(ports).wf(),
            final(self)@.agrees(final(ports)@),
            if port >= old(self)@.links.len() {
                r == Poll::Ready(Err::<(), ConnectError>(ConnectError::ChMux)) && final(self)@
                    == old(self)@ && final(ports)@ == old(ports)@
            } else {
                match old(self)@.links[port as int] {
                    LinkView::Open(_) => r == Poll::Ready(Ok::<(), ConnectError>(())) && final(self)@ == old(self)@ && final(ports)@ == old(ports)@,
                    LinkView::Idle => r == Poll::Ready(Err::<(), ConnectError>(ConnectError::ChMux))
                        && final(self)@ == old(self)@ && final(ports)@ == old(ports)@,
                    LinkView::Requested => if old(self)@.running() {
                        r == Poll::<Result<(), ConnectError>>::Pending && final(self)@ == old(self)@ && final(ports)@ == old(ports)@
                    } else {
                        r == Poll::Ready(Err::<(), ConnectError>(ConnectError::ChMux)) && final(self)@ == old(self)@.with_link(port as int, LinkView::Idle) && final(ports)@
                            == old(ports)@.update(port as int, PortState::Free)
                    },
                    LinkView::Refused => r == Poll::Ready(
                        Err::<(), ConnectError>(ConnectError::Rejected),
                    ) && final(self)@ == old(self)@.with_link(port as int, LinkView::Idle)
                        && final(ports)@ == old(ports)@.update(port as int, PortState::Free),
                }
            },
    {
        if port as usize >= self.links.len() {
            return Poll::Ready(Err(ConnectError::ChMux));
        }
        let state = self.links[port as usize].state;
        match state {
            LinkState::Open => Poll::Ready(Ok(())),
            LinkState::Idle => Poll::Ready(Err(ConnectError::ChMux)),
            LinkState::Requested => {
                if self.status.is_none() {
                    Poll::Pending
                } else {
                    self.set_link(port as usize, Link::idle());
                    ports.release(port, true);
                    ports.release(port, false);
                    assert(ports@ =~= old(ports)@.update(port as int, PortState::Free));
                    Poll::Ready(Err(ConnectError::ChMux))
                }
            },
            LinkState::Refused => {
                self.set_link(port as usize, Link::idle());
                ports.release(port, true);
                ports.release(port, false);
                assert(ports@ =~= old(ports)@.update(port as int, PortState::Free));
                Poll::Ready(Err(ConnectError::Rejected))
            },
        }
    }

    /// Takes up the oldest request of the other side and gives the number
    /// of the new port at this side.
    ///
    /// Gives nothing while no request waits. If no port number is free the
    /// request is refused and the caller told so.
    pub fn accept(&mut self, ports: &mut PortRegistry) -> (r: Poll<Result<u32, ListenerError>>)
        requires
            old(self).wf(),
            old(ports).wf(),
            old(self)@.agrees(old(ports)@),
        ensures
            final(self).wf(),
            final(ports).wf(),
            final(self)@.agrees(final(ports)@),
            if !old(self)@.running() {
                r == Poll::Ready(Err::<u32, ListenerError>(ListenerError::MultiplexerError))
                    && final(self)@ == old(self)@ && final(ports)@ == old(ports)@
            } else if old(self)@.requests.len() == 0 {
                r == Poll::<Result<u32, ListenerError>>::Pending && final(self)@ == old(self)@
                    && final(ports)@ == old(ports)@
            } else {
                let request = old(self)@.requests[0];
                let taken = MuxView { requests: old(self)@.requests.skip(1), ..old(self)@ };
                match r {
                    Poll::Ready(Ok(port)) => {
                        &&& is_free(old(ports)@, port as int)
                        &&& forall|lower: int| 0 <= lower < port ==> is_live(old(ports)@, lower)
                        &&& final(ports)@ == old(ports)@.update(port as int, live())
                        &&& final(self)@ == taken.with_link(
                            port as int,
                            LinkView::Open(
                                OpenView::fresh(
                                    request.client_port,
                                    request.window,
                                    old(self)@.cfg.receive_buffer,
                                ),
                            ),
                        ).sending(
                            Msg::Accepted {
                                client_port: request.client_port,
                                server_port: port,
                                window: old(self)@.cfg.receive_buffer,
                            },
                        )
                    },
                    Poll::Ready(Err(err)) => {
                        &&& err == ListenerError::LocalPortsExhausted
                        &&& forall|port: int|
                            0 <= port < old(ports)@.len() ==> is_live(old(ports)@, port)
                        &&& final(ports)@ == old(ports)@
                        &&& final(self)@ == taken.sending(
                            Msg::Rejected { client_port: request.client_port },
                        )
                    },
                    Poll::Pending => false,
                }
            },
    {
        if self.status.is_some() {
            return Poll::Ready(Err(ListenerError::MultiplexerError));
        }
        let request = match self.requests.pop_front() {
            None => {
                assert(self@.requests =~= old(self)@.requests);
                return Poll::Pending;
            },
            Some(request) => request,
        };
        match ports.allocate() {
            None => {
                self.post(Msg::Rejected { client_port: request.client_port });
                Poll::Ready(Err(ListenerError::LocalPortsExhausted))
            },
            Some(port) => {
                assert(old(self)@.links[port as int] is Idle);
                let window = self.cfg.receive_buffer;
                self.set_link(port as usize, Link::open(request.client_port, request.window, window));
                self.post(
                    Msg::Accepted { client_port: request.client_port, server_port: port, window },
                );
                assert(queued(Seq::<Vec<u8>>::empty()) == 0);
                Poll::Ready(Ok(port))
            },
        }
    }

    /// Refuses the oldest request of the other side. Says whether there
    /// was one.
    pub fn reject(&mut self) -> (refused: bool)
        requires
            old(self).wf(),
        ensures
            final(self).wf(),
            refused == (old(self)@.requests.len() > 0),
            final(self)@ == (if old(self)@.requests.len() > 0 {
                (MuxView { requests: old(self)@.requests.skip(1), ..old(self)@ }).sending(
                    Msg::Rejected { client_port: old(self)@.requests[0].client_port },
                )
            } else {
                old(self)@
            }),
    {
        match self.requests.pop_front() {
            None => {
                assert(self@.requests =~= old(self)@.requests);
                false
            },
            Some(request) => {
                self.post(Msg::Rejected { client_port: request.client_port });
                true
            },
        }
    }
}

impl<SinkError, StreamError> ChMux<SinkError, StreamError> {
    /// Notes something that is said about an open port, and gives the
    /// port's number up when both sides have let the port go.
    fn mark(&mut self, port: usize, flag: Flag, ports: &mut PortRegistry)
        requires
            old(self).wf(),
            old(ports).wf(),
            old(self)@.agrees(old(ports)@),
            old(self)@.open_port(port as int) matches Some(open) && !open.has(flag),
        ensures
            final(self).wf(),
            final(ports).wf(),
            final(self)@.agrees(final(ports)@),
            (final(self)@, final(ports)@) == old(self)@.marking(old(ports)@, port as int, flag),
    {
        let ghost before = old(self)@.open_port(port as int)->Some_0;
        let ghost after = before.marked(flag);
        assert(old(self)@.links[port as int] == LinkView::Open(before));
        let link = &mut self.links[port];
        let was_local = link.sent_finish && link.sent_close;
        let was_remote = link.got_finish && link.got_close;
        match flag {
            Flag::SentFinish => {
                link.sent_finish = true;
            },
            Flag::SentClose => {
                link.sent_close = true;
                link.inbox.clear();
            },
            Flag::GotFinish => {
                link.got_finish = true;
            },
            Flag::GotClose => {
                link.got_close = true;
            },
        }
        let local = link.sent_finish && link.sent_close;
        let remote = link.got_finish && link.got_close;
        if local && remote {
            link.state = LinkState::Idle;
        }
        assert(self.links@[port as int]@ == after.link());
        assert(self@.links =~= old(self)@.links.update(port as int, after.link()));
        if local && !was_local {
            ports.release(port as u32, true);
        }
        if remote && !was_remote {
            ports.release(port as u32, false);
        }
        assert(ports@ =~= old(ports)@.update(port as int, after.port_state()));
        assert(queued(Seq::<Vec<u8>>::empty()) == 0);
        assert(self@.outbox == old(self)@.outbox);
    }

    /// Sends bytes on a port.
    ///
    /// The bytes are queued for the transport as one message and use up
    /// credit. They come back with the reason if the multiplexer has
    /// ended, if the port is not open for sending, if they do not fit
    /// into a frame, or if the other side has not made room for them.
    pub fn send(&mut self, port: u32, payload: Vec<u8>) -> (r: Result<(), (SendError, Vec<u8>)>)
        requires
            old(self).wf(),
        ensures
            final(self).wf(),
            match r {
                Ok(_) => {
                    &&& old(self)@.running()
                    &&& old(self)@.open_port(port as int) matches Some(open)
                    &&& !open.sent_finish && !open.got_close
                    &&& payload@.len() <= old(self)@.max_payload()
                    &&& payload@.len() <= open.credit
                    &&& final(self)@ == old(self)@.with_link(
                        port as int,
                        LinkView::Open(
                            OpenView { credit: (open.credit - payload@.len()) as nat, ..open },
                        ),
                    ).sending(Msg::Data { port: open.remote, payload })
                },
                Err((err, back)) => {
                    &&& back == payload
                    &&& final(self)@ == old(self)@
                    &&& err == (if !old(self)@.running() {
                        SendError::ChMux
                    } else {
                        match old(self)@.open_port(port as int) {
                            None => SendError::Closed,
                            Some(open) => if open.sent_finish || open.got_close {
                                SendError::Closed
                            } else if payload@.len() > old(self)@.max_payload() {
                                SendError::TooLong
                            } else {
                                SendError::NoCredit
                            },
                        }
                    })
                    &&& err == SendError::NoCredit ==> payload@.len() > old(self)@.open_port(
                        port as int,
                    )->Some_0.credit
                },
            },
    {
        if self.status.is_some() {
            return Err((SendError::ChMux, payload));
        }
        if port as usize >= self.links.len() {
            return Err((SendError::Closed, payload));
        }
        let max_payload: u32 = self.cfg.max_frame_length - DATA_OVERHEAD;
        let ghost before = self@.links[port as int];
        let link = &self.links[port as usize];
        if link.state != LinkState::Open || link.sent_finish || link.got_close {
            return Err((SendError::Closed, payload));
        }
        if payload.len() > max_payload as usize {
            return Err((SendError::TooLong, payload));
        }
        if payload.len() > link.credit as usize {
            return Err((SendError::NoCredit, payload));
        }
        let remote = link.remote;
        let link = &mut self.links[port as usize];
        link.credit = link.credit - payload.len() as u32;
        let ghost open = before->Open_0;
        assert(self@.links =~= old(self)@.links.update(
            port as int,
            LinkView::Open(OpenView { credit: (open.credit - payload@.len()) as nat, ..open }),
        ));
        assert(self@.wf());
        let msg = Msg::Data { port: remote, payload };
        assert(msg.spec_len() == 5 + payload@.len()) by {
            assert(crate::chmux::msg::fields(msg).numbers.len() == 1);
        }
        self.post(msg);
        Ok(())
    }

    /// Receives the bytes that came in first on a port and were not
    /// received yet, and tells the other side of the room this makes.
    ///
    /// With nothing there it gives the end if the other side sends no
    /// more, fails if the multiplexer has ended, and gives nothing
    /// otherwise. A port that is not open, or from which this side takes
    /// no more, is at its end.
    pub fn recv(&mut self, port: u32) -> (r: Poll<Result<Option<Vec<u8>>, RecvError>>)
        requires
            old(self).wf(),
        ensures
            final(self).wf(),
            match old(self)@.open_port(port as int) {
                None => r == Poll::Ready(Ok::<Option<Vec<u8>>, RecvError>(None)) && final(self)@
                    == old(self)@,
                Some(open) => if open.sent_close {
                    r == Poll::Ready(Ok::<Option<Vec<u8>>, RecvError>(None)) && final(self)@
                        == old(self)@
                } else if open.inbox.len() > 0 {
                    let taken = old(self)@.with_link(
                        port as int,
                        LinkView::Open(
                            OpenView {
                                inbox: open.inbox.skip(1),
                                window: open.window + open.inbox[0]@.len(),
                                ..open
                            },
                        ),
                    );
                    &&& r == Poll::Ready(Ok::<Option<Vec<u8>>, RecvError>(Some(open.inbox[0])))
                    &&& final(self)@ == (if old(self)@.running() && !open.got_finish {
                        taken.sending(
                            Msg::Credit {
                                port: open.remote,
                                bytes: open.inbox[0]@.len() as u32,
                            },
                        )
                    } else {
                        taken
                    })
                } else {
                    &&& final(self)@ == old(self)@
                    &&& r == (if open.got_finish {
                        Poll::Ready(Ok::<Option<Vec<u8>>, RecvError>(None))
                    } else if !old(self)@.running() {
                        Poll::Ready(Err(RecvError::ChMux))
                    } else {
                        Poll::Pending
                    })
                },
            },
    {
        if port as usize >= self.links.len() {
            return Poll::Ready(Ok(None));
        }
        let running = self.status.is_none();
        let ghost before = self@.links[port as int];
        let link = &self.links[port as usize];
        if link.state != LinkState::Open || link.sent_close {
            return Poll::Ready(Ok(None));
        }
        let ghost open = before->Open_0;
        let got_finish = link.got_finish;
        if link.inbox.len() == 0 {
            return if got_finish {
                Poll::Ready(Ok(None))
            } else if !running {
                Poll::Ready(Err(RecvError::ChMux))
            } else {
                Poll::Pending
            };
        }
        let link = &mut self.links[port as usize];
        match link.inbox.pop_front() {
            None => {
                assert(self@.links =~= old(self)@.links);
                if got_finish {
                    Poll::Ready(Ok(None))
                } else if !running {
                    Poll::Ready(Err(RecvError::ChMux))
                } else {
                    Poll::Pending
                }
            },
            Some(payload) => {
                assert(queued(open.inbox) == payload@.len() + queued(open.inbox.skip(1)));
                let bytes: u32 = payload.len() as u32;
                link.window = link.window + bytes;
                let remote = link.remote;
                let credit = running && !got_finish;
                assert(self@.links =~= old(self)@.links.update(
                    port as int,
                    LinkView::Open(
                        OpenView {
                            inbox: open.inbox.skip(1),
                            window: open.window + payload@.len(),
                            ..open
                        },
                    ),
                ));
                assert(self@.wf());
                if credit {
                    let msg = Msg::Credit { port: remote, bytes };
                    assert(msg.spec_len() == 9) by {
                        assert(crate::chmux::msg::fields(msg).numbers.len() == 2);
                    }
                    self.post(msg);
                }
                Poll::Ready(Ok(Some(payload)))
            },
        }
    }

    /// Says that this side sends no more on a port. Gives `false`, and
    /// changes nothing, if the port is not open or this has been said.
    pub fn finish(&mut self, port: u32, ports: &mut PortRegistry) -> (said: bool)
        requires
            old(self).wf(),
            old(ports).wf(),
            old(self)@.agrees(old(ports)@),
        ensures
            final(self).wf(),
            final(ports).wf(),
            final(self)@.agrees(final(ports)@),
            said == (old(self)@.open_port(port as int) matches Some(open) && !open.sent_finish),
            (final(self)@, final(ports)@) == (if said {
                let marked = old(self)@.marking(old(ports)@, port as int, Flag::SentFinish);
                if old(self)@.running() {
                    (
                        marked.0.sending(
                            Msg::Finish { port: old(self)@.open_port(port as int)->Some_0.remote },
                        ),
                        marked.1,
                    )
                } else {
                    marked
                }
            } else {
                (old(self)@, old(ports)@)
            }),
    {
        if port as usize >= self.links.len() {
            return false;
        }
        let link = &self.links[port as usize];
        if link.state != LinkState::Open || link.sent_finish {
            return false;
        }
        let remote = link.remote;
        self.mark(port as usize, Flag::SentFinish, ports);
        if self.status.is_none() {
            let msg = Msg::Finish { port: remote };
            assert(msg.spec_len() == 5) by {
                assert(crate::chmux::msg::fields(msg).numbers.len() == 1);
            }
            self.post(msg);
            assert(self@.agrees(ports@));
        }
        true
    }

    /// Says that this side takes no more from a port, and drops what it
    /// has not received. Gives `false`, and changes nothing, if the port
    /// is not open or this has been said.
    pub fn close(&mut self, port: u32, ports: &mut PortRegistry) -> (said: bool)
        requires
            old(self).wf(),
            old(ports).wf(),
            old(self)@.agrees(old(ports)@),
        ensures
            final(self).wf(),
            final(ports).wf(),
            final(self)@.agrees(final(ports)@),
            said == (old(self)@.open_port(port as int) matches Some(open) && !open.sent_close),
            (final(self)@, final(ports)@) == (if said {
                let marked = old(self)@.marking(old(ports)@, port as int, Flag::SentClose);
                if old(self)@.running() {
                    (
                        marked.0.sending(
                            Msg::Close { port: old(self)@.open_port(port as int)->Some_0.remote },
                        ),
                        marked.1,
                    )
                } else {
                    marked
                }
            } else {
                (old(self)@, old(ports)@)
            }),
    {
        if port as usize >= self.links.len() {
            return false;
        }
        let link = &self.links[port as usize];
        if link.state != LinkState::Open || link.sent_close {
            return false;
        }
        let remote = link.remote;
        self.mark(port as usize, Flag::SentClose, ports);
        if self.status.is_none() {
            let msg = Msg::Close { port: remote };
            assert(msg.spec_len() == 5) by {
                assert(crate::chmux::msg::fields(msg).numbers.len() == 1);
            }
            self.post(msg);
            assert(self@.agrees(ports@));
        }
        true
    }

    /// Takes in a request for a port.
    fn handle_open(&mut self, client_port: u32, window: u32, ports: &PortRegistry)
        requires
            old(self).wf(),
            old(self)@.running(),
            old(self)@.agrees(ports@),
        ensures
            final(self).wf(),
            final(self)@.agrees(ports@),
            (final(self)@, ports@) == old(self)@.handled(
                ports@,
                Msg::Open { client_port, window },
            ),
    {
        if self.requests.len() >= self.cfg.max_pending_connects as usize {
            let msg = Msg::Rejected { client_port };
            assert(msg.spec_len() == 5) by {
                assert(crate::chmux::msg::fields(msg).numbers.len() == 1);
            }
            self.post(msg);
        } else {
            self.requests.push_back(Request { client_port, window });
            assert(self@.links =~= old(self)@.links);
            assert(self@.outbox == old(self)@.outbox);
        }
    }

    /// Takes in the answer to a request: the port, or the refusal.
    fn handle_answer(&mut self, client_port: u32, answer: Option<(u32, u32)>, ports: &PortRegistry)
        requires
            old(self).wf(),
            old(self)@.running(),
            old(self)@.agrees(ports@),
        ensures
            final(self).wf(),
            final(self)@.agrees(ports@),
            (final(self)@, ports@) == old(self)@.handled(
                ports@,
                match answer {
                    Some((server_port, window)) => Msg::Accepted { client_port, server_port, window },
                    None => Msg::Rejected { client_port },
                },
            ),
    {
        if (client_port as usize) < self.links.len() && self.links[client_port as usize].state
            == LinkState::Requested {
            assert(old(self)@.links[client_port as int] is Requested);
            let link = match answer {
                Some((server_port, window)) => Link::open(
                    server_port,
                    window,
                    self.cfg.receive_buffer,
                ),
                None => Link::refused(),
            };
            self.set_link(client_port as usize, link);
            if self.pending > 0 {
                self.pending -= 1;
            }
            assert(queued(Seq::<Vec<u8>>::empty()) == 0);
            assert(self@.outbox == old(self)@.outbox);
        } else {
            self.violated();
            assert(self@.links =~= old(self)@.links);
            assert(self@.outbox == old(self)@.outbox);
        }
    }

    /// Takes in bytes for a port.
    fn handle_data(&mut self, port: u32, payload: Vec<u8>, ports: &PortRegistry)
        requires
            old(self).wf(),
            old(self)@.running(),
            old(self)@.agrees(ports@),
        ensures
            final(self).wf(),
            final(self)@.agrees(ports@),
            (final(self)@, ports@) == old(self)@.handled(ports@, Msg::Data { port, payload }),
    {
        if (port as usize) < self.links.len() {
            let ghost before = self@.links[port as int];
            let link = &self.links[port as usize];
            if link.state == LinkState::Open && !link.got_finish && payload.len()
                <= link.window as usize {
                let ghost open = before->Open_0;
                let link = &mut self.links[port as usize];
                link.window = link.window - payload.len() as u32;
                if !link.sent_close {
                    link.inbox.push_back(payload);
                }
                proof {
                    lemma_queued_push(open.inbox, payload);
                }
                assert(self@.links =~= old(self)@.links.update(
                    port as int,
                    LinkView::Open(open.took(payload)),
                ));
                assert(self@.outbox == old(self)@.outbox);
                return ;
            }
        }
        self.violated();
        assert(self@.links =~= old(self)@.links);
        assert(self@.outbox == old(self)@.outbox);
    }

    /// Takes in credit for a port.
    fn handle_credit(&mut self, port: u32, bytes: u32, ports: &PortRegistry)
        requires
            old(self).wf(),
            old(self)@.running(),
            old(self)@.agrees(ports@),
        ensures
            final(self).wf(),
            final(self)@.agrees(ports@),
            (final(self)@, ports@) == old(self)@.handled(ports@, Msg::Credit { port, bytes }),
    {
        if (port as usize) < self.links.len() {
            let ghost before = self@.links[port as int];
            let link = &self.links[port as usize];
            if link.state == LinkState::Open && bytes <= 0xffff_ffff - link.credit {
                let ghost open = before->Open_0;
                let link = &mut self.links[port as usize];
                link.credit = link.credit + bytes;
                assert(self@.links =~= old(self)@.links.update(
                    port as int,
                    LinkView::Open(OpenView { credit: open.credit + bytes as nat, ..open }),
                ));
                assert(self@.outbox == old(self)@.outbox);
                return ;
            }
        }
        self.violated();
        assert(self@.links =~= old(self)@.links);
        assert(self@.outbox == old(self)@.outbox);
    }

    /// Takes in what the other side says about a port: that it sends no
    /// more, or that it takes no more.
    fn handle_flag(&mut self, port: u32, finish: bool, ports: &mut PortRegistry)
        requires
            old(self).wf(),
            old(self)@.running(),
            old(ports).wf(),
            old(self)@.agrees(old(ports)@),
        ensures
            final(self).wf(),
            final(ports).wf(),
            final(self)@.agrees(final(ports)@),
            (final(self)@, final(ports)@) == old(self)@.handled(
                old(ports)@,
                if finish {
                    Msg::Finish { port }
                } else {
                    Msg::Close { port }
                },
            ),
    {
        if (port as usize) < self.links.len() {
            let link = &self.links[port as usize];
            let said = if finish {
                link.got_finish
            } else {
                link.got_close
            };
            if link.state == LinkState::Open && !said {
                let flag = if finish {
                    Flag::GotFinish
                } else {
                    Flag::GotClose
                };
                self.mark(port as usize, flag, ports);
                return ;
            }
        }
        self.violated();
        assert(self@.links =~= old(self)@.links);
        assert(self@.outbox == old(self)@.outbox);
    }

    /// Takes in a message of the other side. See [`MuxView::handled`].
    pub fn handle(&mut self, msg: Msg, ports: &mut PortRegistry)
        requires
            old(self).wf(),
            old(ports).wf(),
            old(self)@.agrees(old(ports)@),
        ensures
            final(self).wf(),
            final(ports).wf(),
            final(self)@.agrees(final(ports)@),
            (final(self)@, final(ports)@) == old(self)@.handled(old(ports)@, msg),
    {
        if self.status.is_some() {
            return ;
        }
        match msg {
            Msg::Open { client_port, window } => self.handle_open(client_port, window, ports),
            Msg::Accepted { client_port, server_port, window } => self.handle_answer(
                client_port,
                Some((server_port, window)),
                ports,
            ),
            Msg::Rejected { client_port } => self.handle_answer(client_port, None, ports),
            Msg::Data { port, payload } => self.handle_data(port, payload, ports),
            Msg::Credit { port, bytes } => self.handle_credit(port, bytes, ports),
            Msg::Finish { port } => self.handle_flag(port, true, ports),
            Msg::Close { port } => self.handle_flag(port, false, ports),
            Msg::Goodbye => {
                self.got_goodbye = true;
                if self.sent_goodbye {
                    self.status = Some(Ok(()));
                }
                assert(self@.links =~= old(self)@.links);
                assert(self@.outbox == old(self)@.outbox);
            },
        }
    }
}

impl<SinkError, StreamError> MuxView<SinkError, StreamError> {
    /// The state after the multiplexer has ended in `end`, if it had not
    /// ended before.
    pub open spec fn ended(self, end: Result<(), ChMuxError<SinkError, StreamError>>) -> Self {
        if self.running() {
            MuxView { status: Some(end), ..self }
        } else {
            self
        }
    }

    /// The state after every handle has been let go: this side says
    /// goodbye, once, and the multiplexer ends well if the other side has
    /// said so too.
    pub open spec fn shut_down(self) -> Self {
        if self.running() && !self.sent_goodbye {
            MuxView {
                sent_goodbye: true,
                status: if self.got_goodbye {
                    Some(Ok(()))
                } else {
                    None
                },
                ..self.sending(Msg::Goodbye)
            }
        } else {
            self
        }
    }

    /// How the multiplexer ends when the transport ends: well if the other
    /// side has said goodbye, and else with a stream that closed too
    /// early.
    pub open spec fn stream_end(self) -> Result<(), ChMuxError<SinkError, StreamError>> {
        if self.got_goodbye {
            Ok(())
        } else {
            Err(ChMuxError::StreamClosed)
        }
    }
}

impl<SinkError, StreamError> ChMux<SinkError, StreamError> {
    /// Every handle has been let go: says goodbye to the other side. See
    /// [`MuxView::shut_down`].
    pub fn shutdown(&mut self)
        requires
            old(self).wf(),
        ensures
            final(self).wf(),
            final(self)@ == old(self)@.shut_down(),
    {
        if self.status.is_none() && !self.sent_goodbye {
            let msg = Msg::Goodbye;
            assert(msg.spec_len() == 1) by {
                assert(fields(msg).numbers.len() == 0);
            }
            self.post(msg);
            self.sent_goodbye = true;
            if self.got_goodbye {
                self.status = Some(Ok(()));
            }
            assert(self@.links =~= old(self)@.links);
            assert(self@.outbox == old(self)@.sending(msg).outbox);
        }
    }

    /// A handle more uses the multiplexer.
    pub fn retain(&mut self)
        requires
            old(self)@.handles < usize::MAX,
        ensures
            final(self)@ == (MuxView { handles: old(self)@.handles + 1, ..old(self)@ }),
            old(self).wf() ==> final(self).wf(),
    {
        self.handles += 1;
        assert(self@.links =~= old(self)@.links);
        assert(self@.outbox == old(self)@.outbox);
    }

    /// A handle is let go. When it was the last, this side says goodbye.
    pub fn release(&mut self)
        requires
            old(self).wf(),
        ensures
            final(self).wf(),
            final(self)@ == (if old(self)@.handles > 1 {
                MuxView { handles: (old(self)@.handles - 1) as nat, ..old(self)@ }
            } else {
                (MuxView { handles: 0, ..old(self)@ }).shut_down()
            }),
    {
        if self.handles > 1 {
            self.handles -= 1;
            assert(self@.links =~= old(self)@.links);
            assert(self@.outbox == old(self)@.outbox);
        } else {
            self.handles = 0;
            assert(self@.links =~= old(self)@.links);
            assert(self@.outbox == old(self)@.outbox);
            self.shutdown();
        }
    }

    /// The transport has ended. See [`MuxView::stream_end`].
    pub fn stream_closed(&mut self)
        ensures
            final(self)@ == old(self)@.ended(old(self)@.stream_end()),
            old(self).wf() ==> final(self).wf(),
    {
        if self.status.is_none() {
            self.status = Some(
                if self.got_goodbye {
                    Ok(())
                } else {
                    Err(ChMuxError::StreamClosed)
                },
            );
        }
        assert(self@.links =~= old(self)@.links);
        assert(self@.outbox == old(self)@.outbox);
    }

    /// Reading from the transport failed: the multiplexer ends in that.
    pub fn stream_failed(&mut self, err: StreamError)
        ensures
            final(self)@ == old(self)@.ended(Err(ChMuxError::StreamError(err))),
            old(self).wf() ==> final(self).wf(),
    {
        if self.status.is_none() {
            self.status = Some(Err(ChMuxError::StreamError(err)));
        }
        assert(self@.links =~= old(self)@.links);
        assert(self@.outbox == old(self)@.outbox);
    }

    /// Writing to the transport failed: the multiplexer ends in that.
    pub fn sink_failed(&mut self, err: SinkError)
        ensures
            final(self)@ == old(self)@.ended(Err(ChMuxError::SinkError(err))),
            old(self).wf() ==> final(self).wf(),
    {
        if self.status.is_none() {
            self.status = Some(Err(ChMuxError::SinkError(err)));
        }
        assert(self@.links =~= old(self)@.links);
        assert(self@.outbox == old(self)@.outbox);
    }

    /// Takes in a frame from the transport.
    ///
    /// A frame that is longer than the settings allow ends the
    /// multiplexer, and so does one that is no message. A message is taken
    /// in as [`MuxView::handled`] says.
    pub fn handle_frame(&mut self, frame: &Bytes, ports: &mut PortRegistry)
        requires
            old(self).wf(),
            old(ports).wf(),
            old(self)@.agrees(old(ports)@),
        ensures
            final(self).wf(),
            final(ports).wf(),
            final(self)@.agrees(final(ports)@),
            if contents(*frame).len() > old(self)@.cfg.max_frame_length {
                final(self)@ == old(self)@.ended(Err(ChMuxError::FrameTooLong)) && final(ports)@
                    == old(ports)@
            } else if !is_message(contents(*frame)) {
                final(self)@ == old(self)@.ended(Err(ChMuxError::Protocol)) && final(ports)@
                    == old(ports)@
            } else {
                exists|msg: Msg|
                    fields(msg) == frame_fields(contents(*frame)) && (final(self)@, final(ports)@)
                        == old(self)@.handled(old(ports)@, msg)
            },
    {
        let frame = as_slice(frame);
        if frame.len() > self.cfg.max_frame_length as usize {
            if self.status.is_none() {
                self.status = Some(Err(ChMuxError::FrameTooLong));
            }
            assert(self@.links =~= old(self)@.links);
            assert(self@.outbox == old(self)@.outbox);
            return ;
        }
        match Msg::decode(frame) {
            None => {
                if self.status.is_none() {
                    self.violated();
                }
                assert(self@.links =~= old(self)@.links);
                assert(self@.outbox == old(self)@.outbox);
            },
            Some(msg) => {
                let ghost taken = msg;
                self.handle(msg, ports);
                assert(fields(taken) == frame_fields(frame@) && (self@, ports@) == old(
                    self,
                )@.handled(old(ports)@, taken));
            },
        }
    }

    /// Gives the next frame to write to the transport, if a message waits.
    /// The frame is never longer than the settings allow.
    pub fn next_frame(&mut self) -> (frame: Option<Bytes>)
        requires
            old(self).wf(),
        ensures
            final(self).wf(),
            match frame {
                None => old(self)@.outbox.len() == 0 && final(self)@ == old(self)@,
                Some(bytes) => {
                    &&& old(self)@.outbox.len() > 0
                    &&& contents(bytes) == encoded(old(self)@.outbox[0])
                    &&& contents(bytes).len() <= old(self)@.cfg.max_frame_length
                    &&& final(self)@ == (MuxView {
                        outbox: old(self)@.outbox.skip(1),
                        ..old(self)@
                    })
                },
            },
    {
        match self.outbox.pop_front() {
            None => {
                assert(self@.links =~= old(self)@.links);
                assert(self@.outbox =~= old(self)@.outbox);
                None
            },
            Some(msg) => {
                assert(msg == old(self)@.outbox[0]);
                assert(self@.links =~= old(self)@.links);
                assert forall|i: int| 0 <= i < self@.outbox.len() implies (
                #[trigger] self@.outbox[i]).spec_len() <= self@.cfg.max_frame_length by {
                    assert(self@.outbox[i] == old(self)@.outbox[i + 1]);
                }
                Some(from_vec(msg.encode()))
            },
        }
    }
}

/// A sender never has more bytes under way than the other side has
/// announced room for: what is sent uses up credit, and nothing is sent
/// without it.
pub proof fn lemma_send_within_credit<SinkError, StreamError>(
    before: MuxView<SinkError, StreamError>,
    after: MuxView<SinkError, StreamError>,
    port: int,
    payload: Vec<u8>,
)
    requires
        before.open_port(port) matches Some(open) && payload@.len() <= open.credit && after
            == before.with_link(
            port,
            LinkView::Open(OpenView { credit: (open.credit - payload@.len()) as nat, ..open }),
        ).sending(Msg::Data { port: open.remote, payload }),
    ensures
        after.open_port(port) matches Some(open) && open.credit + payload@.len()
            == before.open_port(port)->Some_0.credit,
        forall|other: int| other != port ==> after.open_port(other) == before.open_port(other),
{
}

/// What comes in on one port changes no other port: a port that is full,
/// or whose receiver is slow, holds up none of the others.
pub proof fn lemma_ports_are_apart<SinkError, StreamError>(
    state: MuxView<SinkError, StreamError>,
    ports: Seq<PortState>,
    port: u32,
    payload: Vec<u8>,
    other: int,
)
    requires
        state.running(),
        other != port,
        0 <= other < state.links.len(),
        state.open_port(port as int) matches Some(open) && !open.got_finish && payload@.len()
            <= open.window,
    ensures
        state.handled(ports, Msg::Data { port, payload }).0.links[other] == state.links[other],
        state.handled(ports, Msg::Data { port, payload }).0.running(),
{
}

} // verus!
