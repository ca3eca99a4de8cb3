//! A channel for bytes as they are, with at least one half at the peer.
//!
//! Both halves are made here and neither has a port. When one of them is
//! sent, a port is opened for the channel and its near end is handed to the
//! half that stayed. When the other is sent too, what comes in on one port
//! is passed on to the other.

use crate::chmux;
use crate::rch::base::{PortSerializer, SerializeError};
use crate::rch::interlock::{Interlock, InterlockError, InterlockState, Op, Role, Side};
use crate::rch::Poll;
use std::collections::VecDeque;
use vstd::prelude::*;

verus! {

/// What a half of a channel holds.
pub struct HalfView {
    /// The port it works on, once it has one.
    pub port: Option<u32>,
    /// What the other half has handed over and this one has not yet taken
    /// up: ports, or the reasons why none came.
    pub handed: Seq<Result<u32, chmux::ConnectError>>,
    /// Whether the other half can still hand something over.
    pub awaiting: bool,
    /// The port whose task takes over when this half is let go.
    pub successor: Option<u32>,
}

impl HalfView {
    /// A half as it is made: no port, nothing handed over, the other half
    /// there.
    pub open spec fn initial() -> HalfView {
        HalfView { port: None, handed: Seq::empty(), awaiting: true, successor: None }
    }
}

/// The state of a half.
struct Half {
    port: Option<u32>,
    handed: VecDeque<Result<u32, chmux::ConnectError>>,
    awaiting: bool,
    successor_tx: Option<u32>,
}

impl View for Half {
    type V = HalfView;

    closed spec fn view(&self) -> HalfView {
        HalfView {
            port: self.port,
            handed: self.handed@,
            awaiting: self.awaiting,
            successor: self.successor_tx,
        }
    }
}

/// A half could not be written into a message.
#[derive(Clone, Copy, Debug, PartialEq, Eq, Structural)]
pub enum SendHalfError {
    /// The interlock does not let the half go now.
    Interlock(InterlockError),
    /// No port number is left.
    Ports(SerializeError),
}

/// A half could not get to its port.
#[derive(Clone, Copy, Debug, PartialEq, Eq, Structural)]
pub enum EstablishError {
    /// The port could not be opened.
    Connect(chmux::ConnectError),
    /// The other half is gone and has handed nothing over.
    Dropped,
}

/// What writing a half into a message comes to, given what the interlock
/// says and whether a port number is free.
pub open spec fn sent_half(
    verdict: Result<Role, InterlockError>,
    reserved: Result<u32, SerializeError>,
) -> Result<(u32, Role), SendHalfError> {
    match verdict {
        Err(err) => Err(SendHalfError::Interlock(err)),
        Ok(role) => match reserved {
            Err(err) => Err(SendHalfError::Ports(err)),
            Ok(port) => Ok((port, role)),
        },
    }
}

impl Half {
    fn new() -> (half: Self)
        ensures
            half@ == HalfView::initial(),
    {
        Half { port: None, handed: VecDeque::new(), awaiting: true, successor_tx: None }
    }

    fn serialize(&mut self, side: Side, interlock: &mut Interlock, serializer: &mut PortSerializer) -> (r:
        Result<(u32, Role), SendHalfError>)
        requires
            old(serializer).wf(),
        ensures
            final(serializer).wf(),
            match r {
                Ok((port, role)) => {
                    &&& old(interlock)@.verdict(side) == Ok::<Role, InterlockError>(role)
                    &&& final(interlock)@ == old(interlock)@.after(Op::Start(side))
                    &&& old(serializer).reserved(final(serializer), Ok(port))
                    &&& final(self)@ == (HalfView { successor: Some(port), ..old(self)@ })
                },
                Err(SendHalfError::Interlock(err)) => {
                    &&& old(interlock)@.verdict(side) == Err::<Role, InterlockError>(err)
                    &&& final(interlock)@ == old(interlock)@
                    &&& final(serializer).ports() == old(serializer).ports()
                    &&& final(serializer).requests() == old(serializer).requests()
                    &&& final(self)@ == old(self)@
                },
                Err(SendHalfError::Ports(err)) => {
                    &&& old(interlock)@.verdict(side) is Ok
                    &&& final(interlock)@ == old(interlock)@
                    &&& old(serializer).reserved(final(serializer), Err(err))
                    &&& final(self)@ == old(self)@
                },
            },
    {
        match interlock.verdict(side) {
            Err(err) => Err(SendHalfError::Interlock(err)),
            Ok(_) => match serializer.connect() {
                Err(err) => Err(SendHalfError::Ports(err)),
                Ok(port) => match interlock.start_send(side) {
                    Ok(role) => {
                        self.successor_tx = Some(port);
                        Ok((port, role))
                    },
                    Err(err) => Err(SendHalfError::Interlock(err)),
                },
            },
        }
    }

    fn hand_over(&mut self, port: Result<u32, chmux::ConnectError>)
        ensures
            final(self)@ == (HalfView { handed: old(self)@.handed.push(port), ..old(self)@ }),
    {
        self.handed.push_back(port);
    }

    fn other_gone(&mut self)
        ensures
            final(self)@ == (HalfView { awaiting: false, ..old(self)@ }),
    {
        self.awaiting = false;
    }

    fn establish(&mut self) -> (r: Poll<Result<u32, EstablishError>>)
        ensures
            r == established(old(self)@).0,
            final(self)@ == established(old(self)@).1,
    {
        match self.port {
            Some(port) => Poll::Ready(Ok(port)),
            None => match self.handed.pop_front() {
                Some(Ok(port)) => {
                    self.port = Some(port);
                    Poll::Ready(Ok(port))
                },
                Some(Err(err)) => Poll::Ready(Err(EstablishError::Connect(err))),
                None => {
                    assert(self@.handed =~= old(self)@.handed);
                    if self.awaiting {
                        Poll::Pending
                    } else {
                        Poll::Ready(Err(EstablishError::Dropped))
                    }
                },
            },
        }
    }
}

/// What a half finds when it looks for its port, and the state this leaves.
///
/// A half that has a port keeps it. Else it takes up what was handed over
/// first: a port, which is then its own, or the reason why none came. With
/// nothing handed over it waits while the other half is there, and gives
/// up when it is gone.
pub open spec fn established(half: HalfView) -> (Poll<Result<u32, EstablishError>>, HalfView) {
    match half.port {
        Some(port) => (Poll::Ready(Ok(port)), half),
        None => if half.handed.len() > 0 {
            match half.handed[0] {
                Ok(port) => (
                    Poll::Ready(Ok(port)),
                    HalfView { port: Some(port), handed: half.handed.skip(1), ..half },
                ),
                Err(err) => (
                    Poll::Ready(Err(EstablishError::Connect(err))),
                    HalfView { handed: half.handed.skip(1), ..half },
                ),
            }
        } else if half.awaiting {
            (Poll::Pending, half)
        } else {
            (Poll::Ready(Err(EstablishError::Dropped)), half)
        },
    }
}

/// The sending half.
pub struct Sender {
    half: Half,
}

/// The receiving half.
pub struct Receiver {
    half: Half,
}

impl View for Sender {
    type V = HalfView;

    closed spec fn view(&self) -> HalfView {
        self.half@
    }
}

impl View for Receiver {
    type V = HalfView;

    closed spec fn view(&self) -> HalfView {
        self.half@
    }
}

impl Sender {
    /// Writes the sender into a message.
    ///
    /// The interlock says whether the sender may go and who opens the
    /// port; a port number is reserved and travels in the sender's place.
    /// The interlock is marked only when the number is there: on any
    /// failure nothing has changed.
    pub fn serialize(&mut self, interlock: &mut Interlock, serializer: &mut PortSerializer) -> (r:
        Result<(u32, Role), SendHalfError>)
        requires
            old(serializer).wf(),
        ensures
            final(serializer).wf(),
            match r {
                Ok((port, role)) => {
                    &&& old(interlock)@.verdict(Side::Sender) == Ok::<Role, InterlockError>(role)
                    &&& final(interlock)@ == old(interlock)@.after(Op::Start(Side::Sender))
                    &&& old(serializer).reserved(final(serializer), Ok(port))
                    &&& final(self)@ == (HalfView { successor: Some(port), ..old(self)@ })
                },
                Err(SendHalfError::Interlock(err)) => {
                    &&& old(interlock)@.verdict(Side::Sender) == Err::<Role, InterlockError>(err)
                    &&& final(interlock)@ == old(interlock)@
                    &&& final(serializer).ports() == old(serializer).ports()
                    &&& final(serializer).requests() == old(serializer).requests()
                    &&& final(self)@ == old(self)@
                },
                Err(SendHalfError::Ports(err)) => {
                    &&& old(interlock)@.verdict(Side::Sender) is Ok
                    &&& final(interlock)@ == old(interlock)@
                    &&& old(serializer).reserved(final(serializer), Err(err))
                    &&& final(self)@ == old(self)@
                },
            },
    {
        self.half.serialize(Side::Sender, interlock, serializer)
    }

    /// The receiver was sent and this came of its port: the near end of the
    /// port, or the reason why there is none. It waits here until the
    /// sender takes it up.
    pub fn hand_over(&mut self, port: Result<u32, chmux::ConnectError>)
        ensures
            final(self)@ == (HalfView { handed: old(self)@.handed.push(port), ..old(self)@ }),
    {
        self.half.hand_over(port)
    }

    /// The receiver is gone and will hand nothing more over.
    pub fn other_gone(&mut self)
        ensures
            final(self)@ == (HalfView { awaiting: false, ..old(self)@ }),
    {
        self.half.other_gone()
    }

    /// Looks for the port to send on. See [`established`].
    pub fn establish(&mut self) -> (r: Poll<Result<u32, EstablishError>>)
        ensures
            r == established(old(self)@).0,
            final(self)@ == established(old(self)@).1,
    {
        self.half.establish()
    }
}

impl Receiver {
    /// Writes the receiver into a message. See [`Sender::serialize`].
    pub fn serialize(&mut self, interlock: &mut Interlock, serializer: &mut PortSerializer) -> (r:
        Result<(u32, Role), SendHalfError>)
        requires
            old(serializer).wf(),
        ensures
            final(serializer).wf(),
            match r {
                Ok((port, role)) => {
                    &&& old(interlock)@.verdict(Side::Receiver) == Ok::<Role, InterlockError>(role)
                    &&& final(interlock)@ == old(interlock)@.after(Op::Start(Side::Receiver))
                    &&& old(serializer).reserved(final(serializer), Ok(port))
                    &&& final(self)@ == (HalfView { successor: Some(port), ..old(self)@ })
                },
                Err(SendHalfError::Interlock(err)) => {
                    &&& old(interlock)@.verdict(Side::Receiver) == Err::<Role, InterlockError>(err)
                    &&& final(interlock)@ == old(interlock)@
                    &&& final(serializer).ports() == old(serializer).ports()
                    &&& final(serializer).requests() == old(serializer).requests()
                    &&& final(self)@ == old(self)@
                },
                Err(SendHalfError::Ports(err)) => {
                    &&& old(interlock)@.verdict(Side::Receiver) is Ok
                    &&& final(interlock)@ == old(interlock)@
                    &&& old(serializer).reserved(final(serializer), Err(err))
                    &&& final(self)@ == old(self)@
                },
            },
    {
        self.half.serialize(Side::Receiver, interlock, serializer)
    }

    /// The sender was sent and this came of its port: the near end of the
    /// port, or the reason why there is none. It waits here until the
    /// receiver takes it up.
    pub fn hand_over(&mut self, port: Result<u32, chmux::ConnectError>)
        ensures
            final(self)@ == (HalfView { handed: old(self)@.handed.push(port), ..old(self)@ }),
    {
        self.half.hand_over(port)
    }

    /// The sender is gone and will hand nothing more over.
    pub fn other_gone(&mut self)
        ensures
            final(self)@ == (HalfView { awaiting: false, ..old(self)@ }),
    {
        self.half.other_gone()
    }

    /// Looks for the port to receive on. See [`established`].
    pub fn establish(&mut self) -> (r: Poll<Result<u32, EstablishError>>)
        ensures
            r == established(old(self)@).0,
            final(self)@ == established(old(self)@).1,
    {
        self.half.establish()
    }
}

/// Makes a channel for bytes. Its halves are both here and without a port;
/// it comes to life when one of them is sent to the peer. The interlock is
/// for both halves: whoever holds them shares it between them.
pub fn channel() -> (made: (Sender, Receiver, Interlock))
    ensures
        made.0@ == HalfView::initial(),
        made.1@ == HalfView::initial(),
        made.2@ == InterlockState::initial(),
{
    let sender = Sender { half: Half::new() };
    let receiver = Receiver { half: Half::new() };
    (sender, receiver, Interlock::new())
}

} // verus!
