//! Which half of a channel may open the connection to the peer.
//!
//! The two halves of a channel that was made here share one interlock.
//! Either half can be sent to the peer, and each would open a port for the
//! channel if nothing stopped it. The interlock lets the half that is sent
//! first open the port; a half that is sent later joins what is there.
//!
//! The interlock is a plain state object. Whoever shares it between the
//! halves keeps it behind a lock and holds the lock for one call.

use vstd::prelude::*;

verus! {

/// Where a half of a channel is.
#[derive(Clone, Copy, Debug, PartialEq, Eq, Structural)]
pub enum Location {
    /// Here.
    Local,
    /// It has been sent to a peer. This does not change back.
    Sent,
}

/// A half of a channel.
#[derive(Clone, Copy, Debug, PartialEq, Eq, Structural)]
pub enum Side {
    /// The sending half.
    Sender,
    /// The receiving half.
    Receiver,
}

impl Side {
    /// The other half.
    pub open spec fn spec_other(self) -> Side {
        match self {
            Side::Sender => Side::Receiver,
            Side::Receiver => Side::Sender,
        }
    }

    /// The other half.
    pub fn other(self) -> (side: Side)
        ensures
            side == self.spec_other(),
    {
        match self {
            Side::Sender => Side::Receiver,
            Side::Receiver => Side::Sender,
        }
    }
}

/// What a half that is being sent does about the port.
#[derive(Clone, Copy, Debug, PartialEq, Eq, Structural)]
pub enum Role {
    /// It is the first of its channel to leave: it opens the port.
    Connect,
    /// The other half has left before it: it opens nothing of its own and
    /// takes up what the other half opened.
    Accept,
}

/// Why a half cannot be sent now.
#[derive(Clone, Copy, Debug, PartialEq, Eq, Structural)]
pub enum InterlockError {
    /// A half of this channel is being sent and it is not yet known what
    /// came of its port. Try again when it is.
    Busy,
    /// This half has been sent before.
    AlreadySent,
}

/// The state of an interlock.
#[derive(Clone, Copy, Debug, PartialEq, Eq, Structural)]
pub struct InterlockState {
    /// Where the sending half is.
    pub sender: Location,
    /// Where the receiving half is.
    pub receiver: Location,
    /// The half that is being sent and waits to learn what came of its
    /// port, if one is.
    pub pending: Option<Side>,
}

/// Something that is done to an interlock.
#[derive(Clone, Copy, Debug, PartialEq, Eq, Structural)]
pub enum Op {
    /// A half is about to be sent.
    Start(Side),
    /// It is known what came of the port of a half that was being sent.
    Confirm(Side),
}

impl InterlockState {
    /// Both halves here, none being sent.
    pub open spec fn initial() -> InterlockState {
        InterlockState { sender: Location::Local, receiver: Location::Local, pending: None }
    }

    /// Where a half is.
    pub open spec fn location(self, side: Side) -> Location {
        match side {
            Side::Sender => self.sender,
            Side::Receiver => self.receiver,
        }
    }

    /// The state with a half marked as sent and waiting.
    pub open spec fn sent(self, side: Side) -> InterlockState {
        match side {
            Side::Sender => InterlockState { sender: Location::Sent, pending: Some(side), ..self },
            Side::Receiver => InterlockState {
                receiver: Location::Sent,
                pending: Some(side),
                ..self
            },
        }
    }

    /// What a half learns that is about to be sent.
    pub open spec fn verdict(self, side: Side) -> Result<Role, InterlockError> {
        if self.pending is Some {
            Err(InterlockError::Busy)
        } else if self.location(side) == Location::Sent {
            Err(InterlockError::AlreadySent)
        } else if self.location(side.spec_other()) == Location::Local {
            Ok(Role::Connect)
        } else {
            Ok(Role::Accept)
        }
    }

    /// The state that an operation leaves.
    pub open spec fn after(self, op: Op) -> InterlockState {
        match op {
            Op::Start(side) => if self.verdict(side) is Ok {
                self.sent(side)
            } else {
                self
            },
            Op::Confirm(side) => if self.pending == Some(side) {
                InterlockState { pending: None, ..self }
            } else {
                self
            },
        }
    }

    /// Whether an operation tells a half to open the port.
    pub open spec fn lets_connect(self, op: Op) -> bool {
        match op {
            Op::Start(side) => self.verdict(side) == Ok::<Role, InterlockError>(Role::Connect),
            Op::Confirm(_) => false,
        }
    }

    /// The state after a run of operations, in order.
    pub open spec fn after_all(self, ops: Seq<Op>) -> InterlockState
        decreases ops.len(),
    {
        if ops.len() == 0 {
            self
        } else {
            self.after(ops[0]).after_all(ops.skip(1))
        }
    }

    /// How many operations of a run tell a half to open the port.
    pub open spec fn connects(self, ops: Seq<Op>) -> nat
        decreases ops.len(),
    {
        if ops.len() == 0 {
            0
        } else {
            let first: nat = if self.lets_connect(ops[0]) {
                1
            } else {
                0
            };
            first + self.after(ops[0]).connects(ops.skip(1))
        }
    }

    /// Whether a half that waits has been marked as sent.
    pub open spec fn wf(self) -> bool {
        self.pending matches Some(side) ==> self.location(side) == Location::Sent
    }
}

/// The interlock that the two halves of a channel share.
#[derive(Debug)]
pub struct Interlock {
    state: InterlockState,
}

impl View for Interlock {
    type V = InterlockState;

    closed spec fn view(&self) -> InterlockState {
        self.state
    }
}

impl Interlock {
    /// The interlock of a channel whose halves are both here.
    pub fn new() -> (interlock: Self)
        ensures
            interlock@ == InterlockState::initial(),
    {
        Interlock {
            state: InterlockState {
                sender: Location::Local,
                receiver: Location::Local,
                pending: None,
            },
        }
    }

    /// Whether both halves are here.
    pub fn is_local(&self) -> (local: bool)
        ensures
            local == (self@.sender == Location::Local && self@.receiver == Location::Local),
    {
        self.state.sender == Location::Local && self.state.receiver == Location::Local
    }

    /// Where a half is.
    pub fn location(&self, side: Side) -> (location: Location)
        ensures
            location == self@.location(side),
    {
        match side {
            Side::Sender => self.state.sender,
            Side::Receiver => self.state.receiver,
        }
    }

    /// What a half would learn that is about to be sent. Nothing changes.
    pub fn verdict(&self, side: Side) -> (r: Result<Role, InterlockError>)
        ensures
            r == self@.verdict(side),
    {
        if self.state.pending.is_some() {
            Err(InterlockError::Busy)
        } else if self.location(side) == Location::Sent {
            Err(InterlockError::AlreadySent)
        } else if self.location(side.other()) == Location::Local {
            Ok(Role::Connect)
        } else {
            Ok(Role::Accept)
        }
    }

    /// A half is about to be sent. Checks whether it may be and, if so,
    /// marks it as sent in the same step and says who opens the port: this
    /// half if the other is still here, else nobody anew.
    ///
    /// Fails, and changes nothing, while a half waits to learn what came of
    /// its port, and for a half that has been sent before.
    pub fn start_send(&mut self, side: Side) -> (r: Result<Role, InterlockError>)
        ensures
            r == old(self)@.verdict(side),
            final(self)@ == old(self)@.after(Op::Start(side)),
    {
        if self.state.pending.is_some() {
            return Err(InterlockError::Busy);
        }
        if self.location(side) == Location::Sent {
            return Err(InterlockError::AlreadySent);
        }
        let role = if self.location(side.other()) == Location::Local {
            Role::Connect
        } else {
            Role::Accept
        };
        match side {
            Side::Sender => {
                self.state.sender = Location::Sent;
            },
            Side::Receiver => {
                self.state.receiver = Location::Sent;
            },
        }
        self.state.pending = Some(side);
        Ok(role)
    }

    /// It is known what came of the port of a half that was being sent: the
    /// half waits no longer. Says whether it had been waiting.
    pub fn confirm(&mut self, side: Side) -> (waited: bool)
        ensures
            waited == (old(self)@.pending == Some(side)),
            final(self)@ == old(self)@.after(Op::Confirm(side)),
    {
        match self.state.pending {
            Some(waiting) => {
                if waiting == side {
                    self.state.pending = None;
                    true
                } else {
                    false
                }
            },
            None => false,
        }
    }
}

/// Once a half has been sent, no half is told to open the port again.
pub proof fn lemma_no_connect_after_sent(state: InterlockState, ops: Seq<Op>)
    requires
        state.sender == Location::Sent || state.receiver == Location::Sent,
    ensures
        state.connects(ops) == 0,
    decreases ops.len(),
{
    if ops.len() > 0 {
        lemma_no_connect_after_sent(state.after(ops[0]), ops.skip(1));
    }
}

/// However the sending of the two halves of one channel is interleaved, at
/// most one of them is told to open the port.
pub proof fn lemma_one_connect(ops: Seq<Op>)
    ensures
        InterlockState::initial().connects(ops) <= 1,
{
    lemma_one_connect_from(InterlockState::initial(), ops);
}

/// From any state, at most one half is told to open the port.
pub proof fn lemma_one_connect_from(state: InterlockState, ops: Seq<Op>)
    ensures
        state.connects(ops) <= 1,
    decreases ops.len(),
{
    if ops.len() > 0 {
        let next = state.after(ops[0]);
        if state.lets_connect(ops[0]) {
            lemma_no_connect_after_sent(next, ops.skip(1));
        } else {
            lemma_one_connect_from(next, ops.skip(1));
        }
    }
}

/// A half that has been sent stays sent, whatever follows.
pub proof fn lemma_sent_is_permanent(state: InterlockState, ops: Seq<Op>, side: Side)
    requires
        state.location(side) == Location::Sent,
    ensures
        state.after_all(ops).location(side) == Location::Sent,
    decreases ops.len(),
{
    if ops.len() > 0 {
        lemma_sent_is_permanent(state.after(ops[0]), ops.skip(1), side);
    }
}

/// While a half waits to learn what came of its port, the other cannot
/// start: at most one half is being sent at a time. A half that waits has
/// been marked as sent, in every state that can be reached.
pub proof fn lemma_one_at_a_time(ops: Seq<Op>, side: Side)
    ensures
        InterlockState::initial().after_all(ops).wf(),
        InterlockState::initial().after_all(ops).pending is Some
            ==> InterlockState::initial().after_all(ops).verdict(side) == Err::<
            Role,
            InterlockError,
        >(InterlockError::Busy),
{
    lemma_wf_is_kept(InterlockState::initial(), ops);
}

/// Operations keep the state well formed.
proof fn lemma_wf_is_kept(state: InterlockState, ops: Seq<Op>)
    requires
        state.wf(),
    ensures
        state.after_all(ops).wf(),
    decreases ops.len(),
{
    if ops.len() > 0 {
        lemma_wf_is_kept(state.after(ops[0]), ops.skip(1));
    }
}

} // verus!
