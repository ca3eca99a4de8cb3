//! The receiving half of a queue.

use crate::chmux;
use crate::codec::DefaultCodec;
use crate::rch::base;
use crate::rch::base::{DeserializeError, PortDeserializer, PortSerializer, SerializeError};
use crate::rch::buffer::Size;
use crate::rch::mpsc::distributor::{Distributor, DistributorView};
use crate::rch::buffer::DefaultSize;
use crate::rch::{ClosedReason, Poll, RemoteSendError};
use crate::text::{prefixed, Describe};
use std::collections::VecDeque;
use std::marker::PhantomData;
use std::task::Context as Waking;
use tokio::sync::mpsc::error::TryRecvError as NoEntry;
use tokio::sync::mpsc::Receiver as Channel;
use vstd::prelude::*;
use vstd::std_specs::convert::FromSpecImpl;

verus! {

/// Receiving from a queue failed.
#[derive(Clone, Copy, Debug, PartialEq, Eq, Structural)]
pub enum RecvError {
    /// Receiving from the far side failed.
    RemoteReceive(base::RecvError),
    /// The port for a sent half could not be opened.
    RemoteConnect(chmux::ConnectError),
    /// The port for a received half could not be taken up.
    RemoteListen(chmux::ListenerError),
}

impl RecvError {
    /// Whether no later receive can succeed.
    pub open spec fn spec_is_final(&self) -> bool {
        match self {
            RecvError::RemoteReceive(err) => err.spec_is_final(),
            RecvError::RemoteConnect(_) => true,
            RecvError::RemoteListen(_) => true,
        }
    }

    /// Whether no later receive can succeed.
    pub fn is_final(&self) -> (r: bool)
        ensures
            r == self.spec_is_final(),
    {
        match self {
            RecvError::RemoteReceive(err) => err.is_final(),
            RecvError::RemoteConnect(_) | RecvError::RemoteListen(_) => true,
        }
    }

    /// The error in words.
    pub fn to_string(&self) -> (text: String)
        ensures
            text@ == self.description(),
    {
        self.describe()
    }
}

impl Describe for RecvError {
    open spec fn description(&self) -> Seq<char> {
        match self {
            RecvError::RemoteReceive(err) => "receive error: "@ + err.description(),
            RecvError::RemoteConnect(err) => "connect error: "@ + err.description(),
            RecvError::RemoteListen(err) => "listen error: "@ + err.description(),
        }
    }

    fn describe(&self) -> (text: String) {
        match self {
            RecvError::RemoteReceive(err) => prefixed("receive error: ", err),
            RecvError::RemoteConnect(err) => prefixed("connect error: ", err),
            RecvError::RemoteListen(err) => prefixed("listen error: ", err),
        }
    }
}

/// Trying to receive from a queue, without waiting, gave no value.
#[derive(Clone, Copy, Debug, PartialEq, Eq, Structural)]
pub enum TryRecvError {
    /// Every sender is gone and nothing is left.
    Closed,
    /// Nothing is ready now; something may still come.
    Empty,
    /// Receiving from the far side failed.
    RemoteReceive(base::RecvError),
    /// The port for a sent half could not be opened.
    RemoteConnect(chmux::ConnectError),
    /// The port for a received half could not be taken up.
    RemoteListen(chmux::ListenerError),
}

impl TryRecvError {
    /// Whether no later receive can succeed.
    pub open spec fn spec_is_final(&self) -> bool {
        match self {
            TryRecvError::Empty => false,
            TryRecvError::RemoteReceive(err) => err.spec_is_final(),
            TryRecvError::Closed => true,
            TryRecvError::RemoteConnect(_) => true,
            TryRecvError::RemoteListen(_) => true,
        }
    }

    /// Whether no later receive can succeed.
    pub fn is_final(&self) -> (r: bool)
        ensures
            r == self.spec_is_final(),
    {
        match self {
            TryRecvError::Empty => false,
            TryRecvError::RemoteReceive(err) => err.is_final(),
            TryRecvError::Closed | TryRecvError::RemoteConnect(_) | TryRecvError::RemoteListen(_) => true,
        }
    }

    /// The same failure, as an attempt without waiting reports it.
    pub open spec fn of(err: RecvError) -> TryRecvError {
        match err {
            RecvError::RemoteReceive(err) => TryRecvError::RemoteReceive(err),
            RecvError::RemoteConnect(err) => TryRecvError::RemoteConnect(err),
            RecvError::RemoteListen(err) => TryRecvError::RemoteListen(err),
        }
    }

    /// The error in words.
    pub fn to_string(&self) -> (text: String)
        ensures
            text@ == self.description(),
    {
        self.describe()
    }
}

impl Describe for TryRecvError {
    open spec fn description(&self) -> Seq<char> {
        match self {
            TryRecvError::Closed => "channel is closed"@,
            TryRecvError::Empty => "channel is empty"@,
            TryRecvError::RemoteReceive(err) => "receive error: "@ + err.description(),
            TryRecvError::RemoteConnect(err) => "connect error: "@ + err.description(),
            TryRecvError::RemoteListen(err) => "listen error: "@ + err.description(),
        }
    }

    fn describe(&self) -> (text: String) {
        match self {
            TryRecvError::Closed => "channel is closed".to_owned(),
            TryRecvError::Empty => "channel is empty".to_owned(),
            TryRecvError::RemoteReceive(err) => prefixed("receive error: ", err),
            TryRecvError::RemoteConnect(err) => prefixed("connect error: ", err),
            TryRecvError::RemoteListen(err) => prefixed("listen error: ", err),
        }
    }
}

impl From<RecvError> for TryRecvError {
    fn from(err: RecvError) -> (r: Self) {
        match err {
            RecvError::RemoteReceive(err) => TryRecvError::RemoteReceive(err),
            RecvError::RemoteConnect(err) => TryRecvError::RemoteConnect(err),
            RecvError::RemoteListen(err) => TryRecvError::RemoteListen(err),
        }
    }
}

impl FromSpecImpl<RecvError> for TryRecvError {
    open spec fn obeys_from_spec() -> bool {
        true
    }

    open spec fn from_spec(err: RecvError) -> Self {
        TryRecvError::of(err)
    }
}

/// Sending a value, without waiting, failed. The value comes back.
#[derive(Debug, PartialEq, Eq, Structural)]
pub enum TrySendError<T> {
    /// An earlier value did not reach the far side.
    RemoteSend(RemoteSendError, T),
    /// The receiver takes no more, or no sender is attached.
    Closed(T),
    /// The queue has no room now.
    Full(T),
}

/// What came of the request to take up the port of a received receiver.
#[derive(Clone, Copy, Debug, PartialEq, Eq, Structural)]
pub enum Accepted {
    /// The port is there: values can come in.
    Receiving,
    /// The port could not be taken up. The receiver will find the error in
    /// its queue, and nothing after it.
    Failed,
    /// The port could not be taken up and the queue has no room for the
    /// error now. Nothing has changed: report again when there is room.
    Busy,
}

/// What the task that feeds a queue from its port does next.
#[derive(Clone, Copy, Debug, PartialEq, Eq, Structural)]
pub enum Feed {
    /// Go on receiving from the port.
    More,
    /// The port has ended or is lost: the task is done and counts no longer
    /// as a sender.
    Ended,
    /// The queue has no room now. Nothing has changed: offer the same
    /// again when there is room.
    Busy,
}

/// A receiver as it travels: the port on which its values will come, and
/// whether it had been closed. The value type and the codec are in the
/// type only.
#[derive(Debug)]
pub struct TransportedReceiver<T, Codec> {
    /// The port number.
    pub port: u32,
    /// The value type.
    pub data: PhantomData<T>,
    /// The codec.
    pub codec: PhantomData<Codec>,
    /// Whether the receiver had been closed.
    pub closed: bool,
}

impl<T, Codec> TransportedReceiver<T, Codec> {
    /// The receiver that these fields describe. A message that does not say
    /// whether the receiver had been closed means that it had not.
    pub fn from_fields(port: u32, closed: Option<bool>) -> (transported: Self)
        ensures
            transported.port == port,
            transported.closed == (closed == Some(true)),
    {
        let closed = match closed {
            Some(closed) => closed,
            None => false,
        };
        TransportedReceiver { port, data: PhantomData, codec: PhantomData, closed }
    }
}

/// What one attempt to receive finds.
#[derive(Debug, PartialEq, Eq, Structural)]
pub enum Outcome<T> {
    /// The next value.
    Value(T),
    /// An error to report.
    Failed(RecvError),
    /// Every sender is gone and nothing is left, not even an error.
    Finished,
    /// Nothing now; senders remain.
    Empty,
}

/// Where a call is made from.
#[derive(Clone, Copy, Debug, PartialEq, Eq, Structural)]
pub enum Context {
    /// A thread of its own, which may wait.
    Thread,
    /// A task, which must not hold up the tasks that share its thread.
    Task,
}

/// The receiving half of a bounded channel of `tokio`. What is inside is
/// not looked at here: other tasks fill it while this one runs.
#[verifier::external_type_specification]
#[verifier::external_body]
#[verifier::reject_recursive_types(T)]
pub struct ExChannel<T>(Channel<T>);

/// The context of a task that is polled, with its waker.
#[verifier::external_type_specification]
#[verifier::external_body]
pub struct ExWaking<'a>(Waking<'a>);

/// What a channel gives when it is asked for its next entry.
#[derive(Debug, PartialEq, Eq, Structural)]
pub enum Arrival<T> {
    /// An entry.
    Entry(Result<T, RecvError>),
    /// Nothing now; senders remain.
    Nothing,
    /// Nothing, and no sender is left.
    Disconnected,
}

/// What taking from a channel into the queue did.
#[derive(Clone, Copy, Debug, PartialEq, Eq, Structural)]
pub enum Fetch {
    /// An entry went into the queue.
    Taken,
    /// The channel had nothing.
    Nothing,
    /// The channel has lost its senders: the queue has one sender less.
    Disconnected,
    /// The queue takes nothing now, so the channel was not asked.
    Busy,
}

/// `tokio::sync::mpsc::Receiver::try_recv`: the next entry of the channel
/// if one is there, and else whether senders remain. What comes back
/// depends on what other tasks have sent, so nothing is claimed of it.
#[verifier::external_body]
fn channel_try_recv<T>(rx: &mut Channel<Result<T, RecvError>>) -> (arrival:
    Arrival<T>) {
    match rx.try_recv() {
        Ok(entry) => Arrival::Entry(entry),
        Err(NoEntry::Empty) => Arrival::Nothing,
        Err(NoEntry::Disconnected) => Arrival::Disconnected,
    }
}

/// `tokio::sync::mpsc::Receiver::poll_recv`: as
/// [`channel_try_recv`], and with nothing there the task of `cx` is woken
/// when something comes. Nothing is claimed of what comes back.
#[verifier::external_body]
fn channel_poll_recv<T>(
    rx: &mut Channel<Result<T, RecvError>>,
    cx: &mut Waking<'_>,
) -> (arrival: Arrival<T>) {
    match rx.poll_recv(cx) {
        std::task::Poll::Ready(Some(entry)) => Arrival::Entry(entry),
        std::task::Poll::Ready(None) => Arrival::Disconnected,
        std::task::Poll::Pending => Arrival::Nothing,
    }
}

/// Whether an entry is an error after which nothing more can be received
/// from the source it came from.
pub open spec fn is_final_entry<T>(entry: Result<T, RecvError>) -> bool {
    match entry {
        Ok(_) => false,
        Err(err) => err.spec_is_final(),
    }
}

/// How many entries at the front of a queue are final errors.
pub open spec fn final_run<T>(entries: Seq<Result<T, RecvError>>) -> nat
    decreases entries.len(),
{
    if entries.len() > 0 && is_final_entry(entries[0]) {
        1 + final_run(entries.skip(1))
    } else {
        0
    }
}

/// The run of final errors at the front of a queue ends at the first entry
/// that is not one, or at the end of the queue.
pub proof fn lemma_final_run<T>(entries: Seq<Result<T, RecvError>>)
    ensures
        final_run(entries) <= entries.len(),
        forall|i: int| 0 <= i < final_run(entries) ==> is_final_entry(#[trigger] entries[i]),
        final_run(entries) < entries.len() ==> !is_final_entry(entries[final_run(entries) as int]),
    decreases entries.len(),
{
    if entries.len() > 0 && is_final_entry(entries[0]) {
        let rest = entries.skip(1);
        lemma_final_run(rest);
        assert forall|i: int| 0 <= i < final_run(entries) implies is_final_entry(
            #[trigger] entries[i],
        ) by {
            if i > 0 {
                assert(entries[i] == rest[i - 1]);
            }
        }
        if final_run(entries) < entries.len() {
            assert(entries[final_run(entries) as int] == rest[final_run(rest) as int]);
        }
    }
}

/// A queue whose first `n` entries are final errors has a run of at least `n`.
pub proof fn lemma_final_run_at_least<T>(entries: Seq<Result<T, RecvError>>, n: nat)
    requires
        n <= entries.len(),
        forall|i: int| 0 <= i < n ==> is_final_entry(#[trigger] entries[i]),
    ensures
        final_run(entries) >= n,
    decreases n,
{
    if n > 0 {
        let rest = entries.skip(1);
        assert forall|i: int| 0 <= i < n - 1 implies is_final_entry(#[trigger] rest[i]) by {
            assert(rest[i] == entries[i + 1]);
        }
        lemma_final_run_at_least(rest, (n - 1) as nat);
    }
}

/// The error that is held back once the final errors at the front of a
/// queue have been taken off: the one held before, or else the first of
/// them.
pub open spec fn stash<T>(entries: Seq<Result<T, RecvError>>, held: Option<RecvError>) -> Option<
    RecvError,
> {
    if held is Some || final_run(entries) == 0 {
        held
    } else {
        Some(entries[0]->Err_0)
    }
}

/// What a queue holds, with the signals that lead back to its senders.
pub struct QueueView<T> {
    /// The entries that wait, oldest first.
    pub entries: Seq<Result<T, RecvError>>,
    /// How many entries the queue has room for.
    pub capacity: nat,
    /// How many senders are attached.
    pub senders: nat,
    /// What senders are told about the receiver.
    pub closed_signal: Option<ClosedReason>,
    /// What senders are told about values that did not get through.
    pub send_error: Option<RemoteSendError>,
    /// Whether the receiver was closed on purpose.
    pub closed: bool,
}

impl<T> QueueView<T> {
    /// Whether the queue takes another entry: a sender is attached and
    /// there is room.
    pub open spec fn accepts(self) -> bool {
        self.senders > 0 && self.entries.len() < self.capacity
    }

    /// The queue with one more entry at the back.
    pub open spec fn with(self, entry: Result<T, RecvError>) -> QueueView<T> {
        QueueView { entries: self.entries.push(entry), ..self }
    }

    /// The queue with one sender less.
    pub open spec fn less_one_sender(self) -> QueueView<T> {
        QueueView { senders: if self.senders > 0 { (self.senders - 1) as nat } else { 0 }, ..self }
    }

    /// What a sender that offers `value` gets back, if anything: the reason
    /// why the value is not taken.
    pub open spec fn refusal(self, value: T) -> Option<TrySendError<T>> {
        if self.send_error is Some {
            Some(TrySendError::RemoteSend(self.send_error->Some_0, value))
        } else if self.closed_signal is Some || self.senders == 0 {
            Some(TrySendError::Closed(value))
        } else if self.entries.len() >= self.capacity {
            Some(TrySendError::Full(value))
        } else {
            None
        }
    }

    /// The values at the front of the queue, up to the first error.
    pub open spec fn leading_values(self) -> Seq<T> {
        leading_values(self.entries)
    }
}

/// The values at the front of a queue, up to the first error.
pub open spec fn leading_values<T>(entries: Seq<Result<T, RecvError>>) -> Seq<T>
    decreases entries.len(),
{
    if entries.len() > 0 && entries[0] is Ok {
        seq![entries[0]->Ok_0] + leading_values(entries.skip(1))
    } else {
        Seq::empty()
    }
}

/// What a receiver holds.
pub struct ReceiverView<T> {
    /// The queue.
    pub queue: QueueView<T>,
    /// The error that is held back.
    pub held: Option<RecvError>,
    /// The port whose forwarding task takes over the queue when the
    /// receiver is let go.
    pub successor: Option<u32>,
}

impl<T> ReceiverView<T> {
    /// What an attempt to receive finds in this state.
    ///
    /// Final errors at the front are passed over. The first entry behind
    /// them is the result. If there is none, the attempt finds the queue
    /// empty while senders remain; once they are gone it reports the error
    /// that was held back, or the end.
    pub open spec fn outcome(self) -> Outcome<T> {
        let n = final_run(self.queue.entries) as int;
        if n < self.queue.entries.len() {
            match self.queue.entries[n] {
                Ok(value) => Outcome::Value(value),
                Err(err) => Outcome::Failed(err),
            }
        } else if self.queue.senders > 0 {
            Outcome::Empty
        } else {
            match stash(self.queue.entries, self.held) {
                Some(err) => Outcome::Failed(err),
                None => Outcome::Finished,
            }
        }
    }

    /// The state that an attempt to receive leaves.
    ///
    /// The final errors at the front and the entry behind them are gone.
    /// The first final error met is held back unless one was held already;
    /// it is given up only when it is reported at the end.
    pub open spec fn received(self) -> ReceiverView<T> {
        let n = final_run(self.queue.entries) as int;
        if n < self.queue.entries.len() {
            ReceiverView {
                queue: QueueView { entries: self.queue.entries.skip(n + 1), ..self.queue },
                held: stash(self.queue.entries, self.held),
                ..self
            }
        } else if self.queue.senders > 0 {
            ReceiverView {
                queue: QueueView { entries: Seq::empty(), ..self.queue },
                held: stash(self.queue.entries, self.held),
                ..self
            }
        } else {
            ReceiverView {
                queue: QueueView { entries: Seq::empty(), ..self.queue },
                held: None,
                ..self
            }
        }
    }

    /// The state after a channel has given `arrival` for the queue, and what
    /// that did: an entry goes to the back of the queue, and a channel
    /// without senders takes a sender off the queue.
    pub open spec fn arrived(self, arrival: Arrival<T>) -> (ReceiverView<T>, Fetch) {
        match arrival {
            Arrival::Entry(entry) => (
                ReceiverView { queue: self.queue.with(entry), ..self },
                Fetch::Taken,
            ),
            Arrival::Nothing => (self, Fetch::Nothing),
            Arrival::Disconnected => (
                ReceiverView { queue: self.queue.less_one_sender(), ..self },
                Fetch::Disconnected,
            ),
        }
    }

    /// The state after the receiver has been let go: unless a forwarding
    /// task takes the queue over or the receiver had been closed, the
    /// senders are told that it was dropped.
    pub open spec fn let_go(self) -> ReceiverView<T> {
        if self.successor is None && !self.queue.closed {
            ReceiverView {
                queue: QueueView { closed_signal: Some(ClosedReason::Dropped), ..self.queue },
                ..self
            }
        } else {
            self
        }
    }

    /// Whether an attempt to receive finds something to report.
    pub open spec fn ready(self) -> bool {
        final_run(self.queue.entries) < self.queue.entries.len() || self.queue.senders == 0
    }
}

/// The queue and the two signals that lead back to the senders.
pub struct ReceiverInner<T> {
    rx: VecDeque<Result<T, RecvError>>,
    capacity: usize,
    senders: usize,
    closed_tx: Option<ClosedReason>,
    remote_send_err_tx: Option<RemoteSendError>,
    closed: bool,
}

impl<T> View for ReceiverInner<T> {
    type V = QueueView<T>;

    closed spec fn view(&self) -> QueueView<T> {
        QueueView {
            entries: self.rx@,
            capacity: self.capacity as nat,
            senders: self.senders as nat,
            closed_signal: self.closed_tx,
            send_error: self.remote_send_err_tx,
            closed: self.closed,
        }
    }
}

/// What the task that passes a queue on does next.
#[derive(Debug, PartialEq, Eq, Structural)]
pub enum Forward<T> {
    /// Send this value over the port.
    Send(T),
    /// Nothing to send now; senders remain.
    Wait,
    /// Every sender is gone and the queue is empty: finish the port.
    Done,
    /// The queue held an error, which cannot be passed on. The senders have
    /// been told; give the port up.
    Stop,
}

impl<T> ReceiverInner<T> {
    /// Whether the queue is within its bounds.
    pub closed spec fn wf(&self) -> bool {
        &&& self.capacity > 0
        &&& self.rx@.len() <= self.capacity
    }

    /// An empty queue with room for `capacity` entries and one sender
    /// attached. If the receiver had been closed, the sender is told so.
    pub fn new(capacity: usize, closed: bool) -> (queue: Self)
        requires
            capacity > 0,
        ensures
            queue.wf(),
            queue@ == (QueueView::<T> {
                entries: Seq::empty(),
                capacity: capacity as nat,
                senders: 1,
                closed_signal: if closed {
                    Some(ClosedReason::Closed)
                } else {
                    None
                },
                send_error: None,
                closed,
            }),
    {
        ReceiverInner {
            rx: VecDeque::new(),
            capacity,
            senders: 1,
            closed_tx: if closed {
                Some(ClosedReason::Closed)
            } else {
                None
            },
            remote_send_err_tx: None,
            closed,
        }
    }

    /// The port for the queue was to be taken up and this came of it. On
    /// failure the senders are told; the result says whether passing on
    /// can begin.
    pub fn listened(&mut self, port: Result<(), chmux::ListenerError>) -> (go_on: bool)
        ensures
            go_on == port is Ok,
            final(self)@ == (match port {
                Ok(_) => old(self)@,
                Err(err) => QueueView {
                    send_error: Some(RemoteSendError::Listen(err)),
                    ..old(self)@
                },
            }),
            old(self).wf() ==> final(self).wf(),
    {
        match port {
            Ok(_) => true,
            Err(err) => {
                self.remote_send_err_tx = Some(RemoteSendError::Listen(err));
                false
            },
        }
    }

    /// The receiver takes no more: the senders are told why.
    pub fn tell_closed(&mut self, reason: ClosedReason)
        ensures
            final(self)@ == (QueueView { closed_signal: Some(reason), ..old(self)@ }),
            old(self).wf() ==> final(self).wf(),
    {
        self.closed_tx = Some(reason);
    }

    /// What senders are told about the receiver.
    pub fn closed_signal(&self) -> (signal: Option<ClosedReason>)
        ensures
            signal == self@.closed_signal,
    {
        self.closed_tx
    }

    /// What senders are told about values that did not get through.
    pub fn send_error(&self) -> (signal: Option<RemoteSendError>)
        ensures
            signal == self@.send_error,
    {
        self.remote_send_err_tx
    }

    /// How many entries wait.
    pub fn len(&self) -> (n: usize)
        ensures
            n == self@.entries.len(),
    {
        self.rx.len()
    }

    /// A sender offers a value. The value is queued unless an earlier one
    /// is known not to have reached the far side, the receiver is closed or
    /// gone, or the queue is full; then it comes back with the reason.
    pub fn try_send(&mut self, value: T) -> (r: Result<(), TrySendError<T>>)
        requires
            old(self).wf(),
        ensures
            final(self).wf(),
            match old(self)@.refusal(value) {
                Some(err) => r == Err::<(), TrySendError<T>>(err) && final(self)@ == old(self)@,
                None => r is Ok && final(self)@ == old(self)@.with(Ok(value)),
            },
    {
        match self.remote_send_err_tx {
            Some(err) => {
                return Err(TrySendError::RemoteSend(err, value));
            },
            None => {},
        }
        if self.closed_tx.is_some() || self.senders == 0 {
            return Err(TrySendError::Closed(value));
        }
        if self.rx.len() >= self.capacity {
            return Err(TrySendError::Full(value));
        }
        self.rx.push_back(Ok(value));
        Ok(())
    }

    /// The task that feeds the queue offers an entry: a value that came
    /// over the port, or the error that came in its place. The entry is
    /// queued if a sender is attached and there is room, whether or not the
    /// receiver is closed: what was under way when it closed still arrives.
    /// Else the entry comes back.
    pub fn deliver(&mut self, entry: Result<T, RecvError>) -> (r: Result<(), Result<T, RecvError>>)
        requires
            old(self).wf(),
        ensures
            final(self).wf(),
            if old(self)@.accepts() {
                r is Ok && final(self)@ == old(self)@.with(entry)
            } else {
                r == Err::<(), Result<T, RecvError>>(entry) && final(self)@ == old(self)@
            },
    {
        if self.senders == 0 || self.rx.len() >= self.capacity {
            return Err(entry);
        }
        self.rx.push_back(entry);
        Ok(())
    }

    /// Another sender is attached.
    pub fn attach_sender(&mut self)
        requires
            old(self)@.senders < usize::MAX,
        ensures
            final(self)@ == (QueueView { senders: old(self)@.senders + 1, ..old(self)@ }),
            old(self).wf() ==> final(self).wf(),
    {
        self.senders += 1;
    }

    /// A sender is gone.
    pub fn detach_sender(&mut self)
        ensures
            final(self)@ == old(self)@.less_one_sender(),
            old(self).wf() ==> final(self).wf(),
    {
        if self.senders > 0 {
            self.senders -= 1;
        }
    }

    /// The port for the queue was asked for and this came of it. On failure
    /// the senders are told; the result says whether passing on can begin.
    pub fn connected(&mut self, port: Result<(), chmux::ConnectError>) -> (go_on: bool)
        ensures
            go_on == port is Ok,
            final(self)@ == (match port {
                Ok(_) => old(self)@,
                Err(err) => QueueView {
                    send_error: Some(RemoteSendError::Connect(err)),
                    ..old(self)@
                },
            }),
            old(self).wf() ==> final(self).wf(),
    {
        match port {
            Ok(_) => true,
            Err(err) => {
                self.remote_send_err_tx = Some(RemoteSendError::Connect(err));
                false
            },
        }
    }

    /// One step of passing the queue on over its port: takes the entry at
    /// the front and says what to do with it.
    pub fn forward(&mut self) -> (step: Forward<T>)
        requires
            old(self).wf(),
        ensures
            final(self).wf(),
            step == (if old(self)@.entries.len() == 0 {
                if old(self)@.senders > 0 {
                    Forward::<T>::Wait
                } else {
                    Forward::Done
                }
            } else {
                match old(self)@.entries[0] {
                    Ok(value) => Forward::Send(value),
                    Err(_) => Forward::Stop,
                }
            }),
            final(self)@ == (QueueView {
                entries: if old(self)@.entries.len() == 0 {
                    old(self)@.entries
                } else {
                    old(self)@.entries.skip(1)
                },
                send_error: if old(self)@.entries.len() > 0 && old(self)@.entries[0] is Err {
                    Some(RemoteSendError::Forward)
                } else {
                    old(self)@.send_error
                },
                ..old(self)@
            }),
    {
        match self.rx.pop_front() {
            Some(Ok(value)) => Forward::Send(value),
            Some(Err(_)) => {
                self.remote_send_err_tx = Some(RemoteSendError::Forward);
                Forward::Stop
            },
            None => {
                if self.senders > 0 {
                    Forward::Wait
                } else {
                    Forward::Done
                }
            },
        }
    }

    /// Passes on everything that can be passed on now: the values at the
    /// front of the queue, in order, up to the first error or the end.
    /// Nothing is lost on the way: what is not in the result is still in the
    /// queue, or was an error of which the senders have been told.
    pub fn forward_all(&mut self) -> (r: (Vec<T>, Forward<T>))
        requires
            old(self).wf(),
        ensures
            final(self).wf(),
            r.0@ == old(self)@.leading_values(),
            r.1 == (if r.0@.len() < old(self)@.entries.len() {
                Forward::<T>::Stop
            } else if old(self)@.senders > 0 {
                Forward::Wait
            } else {
                Forward::Done
            }),
            final(self)@ == (QueueView {
                entries: if r.0@.len() < old(self)@.entries.len() {
                    old(self)@.entries.skip(r.0@.len() as int + 1)
                } else {
                    Seq::empty()
                },
                send_error: if r.0@.len() < old(self)@.entries.len() {
                    Some(RemoteSendError::Forward)
                } else {
                    old(self)@.send_error
                },
                ..old(self)@
            }),
    {
        let mut sent: Vec<T> = Vec::new();
        assert(self@.entries.skip(0) =~= self@.entries);
        loop
            invariant
                self.wf(),
                sent@.len() <= old(self)@.entries.len(),
                self@ == (QueueView { entries: old(self)@.entries.skip(sent@.len() as int), ..old(self)@ }),
                old(self)@.leading_values() == sent@ + leading_values(self@.entries),
            decreases self@.entries.len(),
        {
            let ghost before = self@;
            let ghost done = sent@;
            match self.forward() {
                Forward::Send(value) => {
                    sent.push(value);
                    proof {
                        assert(self@.entries =~= old(self)@.entries.skip(sent@.len() as int));
                        assert(leading_values(before.entries) == seq![value] + leading_values(
                            self@.entries,
                        ));
                        assert(sent@ + leading_values(self@.entries) =~= done + leading_values(
                            before.entries,
                        ));
                    }
                },
                step => {
                    proof {
                        assert(leading_values(before.entries) =~= Seq::<T>::empty());
                        assert(old(self)@.leading_values() =~= sent@);
                        if before.entries.len() > 0 {
                            assert(self@.entries =~= old(self)@.entries.skip(sent@.len() as int + 1));
                        } else {
                            assert(self@.entries =~= Seq::empty());
                        }
                    }
                    return (sent, step);
                },
            }
        }
    }
}

/// Receives the values of the senders attached to it, which may be at the
/// far end of a port.
///
/// The codec and the queue size in its type take effect when the receiver
/// is sent to the peer: they say how the peer's copy is to be built.
pub struct Receiver<T, Codec = DefaultCodec, Buffer = DefaultSize> {
    inner: ReceiverInner<T>,
    successor_tx: Option<u32>,
    final_err: Option<RecvError>,
    _codec: PhantomData<Codec>,
    _buffer: PhantomData<Buffer>,
}

impl<T, Codec, Buffer> View for Receiver<T, Codec, Buffer> {
    type V = ReceiverView<T>;

    closed spec fn view(&self) -> ReceiverView<T> {
        ReceiverView { queue: self.inner@, held: self.final_err, successor: self.successor_tx }
    }
}

/// What becomes of the queue when its receiver is let go.
pub enum Released<T> {
    /// A forwarding task waits for the queue: it goes on to the task for
    /// this port, as it is.
    Successor {
        /// The port.
        port: u32,
        /// The queue.
        inner: ReceiverInner<T>,
    },
    /// Nobody waits for the queue. The senders are told that the receiver
    /// was dropped, unless it had been closed before.
    Abandoned {
        /// The queue, with its signals.
        inner: ReceiverInner<T>,
    },
}

/// Taking a final error off the front changes neither what an attempt to
/// receive finds nor the state it leaves, if the error is held back unless
/// one is held already.
proof fn lemma_pass_over<T>(before: ReceiverView<T>, after: ReceiverView<T>)
    requires
        before.queue.entries.len() > 0,
        is_final_entry(before.queue.entries[0]),
        after == (ReceiverView {
            queue: QueueView { entries: before.queue.entries.skip(1), ..before.queue },
            held: if before.held is Some {
                before.held
            } else {
                Some(before.queue.entries[0]->Err_0)
            },
            ..before
        }),
    ensures
        after.outcome() == before.outcome(),
        after.received() == before.received(),
{
    let n = final_run(after.queue.entries) as int;
    assert(final_run(before.queue.entries) == n + 1);
    assert(stash(after.queue.entries, after.held) == stash(before.queue.entries, before.held));
    if n < after.queue.entries.len() {
        assert(after.queue.entries[n] == before.queue.entries[n + 1]);
        assert(after.queue.entries.skip(n + 1) =~= before.queue.entries.skip(n + 2));
    }
}

impl<T, Codec, Buffer> Receiver<T, Codec, Buffer> {
    /// Whether the queue is within its bounds.
    pub closed spec fn wf(&self) -> bool {
        self.inner.wf()
    }

    /// A receiver on an empty queue with room for `capacity` entries and one
    /// sender attached. A receiver that is made closed tells its senders so
    /// from the start.
    pub fn new(capacity: usize, closed: bool) -> (receiver: Self)
        requires
            capacity > 0,
        ensures
            receiver.wf(),
            receiver@ == (ReceiverView::<T> {
                queue: QueueView {
                    entries: Seq::empty(),
                    capacity: capacity as nat,
                    senders: 1,
                    closed_signal: if closed {
                        Some(ClosedReason::Closed)
                    } else {
                        None
                    },
                    send_error: None,
                    closed,
                },
                held: None,
                successor: None,
            }),
    {
        Receiver {
            inner: ReceiverInner::new(capacity, closed),
            successor_tx: None,
            final_err: None,
            _codec: PhantomData,
            _buffer: PhantomData,
        }
    }

    /// Takes entries off the queue until one is to be reported or none is
    /// left.
    fn advance(&mut self) -> (found: Outcome<T>)
        requires
            old(self).wf(),
        ensures
            final(self).wf(),
            final(self)@ == old(self)@.received(),
            found == old(self)@.outcome(),
    {
        loop
            invariant
                self.wf(),
                self@.outcome() == old(self)@.outcome(),
                self@.received() == old(self)@.received(),
            decreases self.inner.rx@.len(),
        {
            let ghost before = self@;
            match self.inner.rx.pop_front() {
                Some(Ok(value)) => {
                    return Outcome::Value(value);
                },
                Some(Err(err)) => {
                    if err.is_final() {
                        if self.final_err.is_none() {
                            self.final_err = Some(err);
                        }
                        proof {
                            lemma_pass_over(before, self@);
                        }
                        continue ;
                    } else {
                        return Outcome::Failed(err);
                    }
                },
                None => {
                    assert(self@.queue.entries =~= Seq::empty());
                    if self.inner.senders > 0 {
                        return Outcome::Empty;
                    }
                    match self.take_error() {
                        Some(err) => {
                            return Outcome::Failed(err);
                        },
                        None => {
                            return Outcome::Finished;
                        },
                    }
                },
            }
        }
    }

    /// Whether an attempt to receive would find something to report: an
    /// entry that is no final error waits, or every sender is gone.
    pub fn is_ready(&self) -> (ready: bool)
        requires
            self.wf(),
        ensures
            ready == self@.ready(),
    {
        if self.inner.senders == 0 {
            return true;
        }
        let mut i: usize = 0;
        while i < self.inner.rx.len()
            invariant
                i <= self.inner.rx@.len(),
                forall|j: int| 0 <= j < i ==> is_final_entry(#[trigger] self.inner.rx@[j]),
            decreases self.inner.rx@.len() - i,
        {
            let passes = match &self.inner.rx[i] {
                Ok(_) => false,
                Err(err) => err.is_final(),
            };
            if !passes {
                proof {
                    lemma_final_run(self.inner.rx@);
                }
                return true;
            }
            i += 1;
        }
        proof {
            lemma_final_run_at_least(self.inner.rx@, i as nat);
            lemma_final_run(self.inner.rx@);
        }
        false
    }

    /// Receives the next value.
    ///
    /// Gives `Ok(None)` once every sender is gone and nothing is left. An
    /// error that leaves no hope for its source is held back while others
    /// may still deliver, and comes out at the end in place of `Ok(None)`.
    ///
    /// A caller who would have to wait calls this when the receiver is
    /// ready.
    pub fn recv(&mut self) -> (r: Result<Option<T>, RecvError>)
        requires
            old(self).wf(),
            old(self)@.ready(),
        ensures
            final(self).wf(),
            final(self)@ == old(self)@.received(),
            r == (match old(self)@.outcome() {
                Outcome::Value(value) => Ok::<Option<T>, RecvError>(Some(value)),
                Outcome::Failed(err) => Err(err),
                Outcome::Finished => Ok(None),
                Outcome::Empty => Ok(None),
            }),
            !(old(self)@.outcome() is Empty),
    {
        match self.advance() {
            Outcome::Value(value) => Ok(Some(value)),
            Outcome::Failed(err) => Err(err),
            Outcome::Finished => Ok(None),
            Outcome::Empty => Ok(None),
        }
    }

    /// Receives the next value if the receiver is ready, and says so if it
    /// is not. See [`Receiver::recv`].
    pub fn poll_recv(&mut self) -> (r: Poll<Result<Option<T>, RecvError>>)
        requires
            old(self).wf(),
        ensures
            final(self).wf(),
            final(self)@ == old(self)@.received(),
            r == (match old(self)@.outcome() {
                Outcome::Value(value) => Poll::<Result<Option<T>, RecvError>>::Ready(
                    Ok(Some(value)),
                ),
                Outcome::Failed(err) => Poll::Ready(Err(err)),
                Outcome::Finished => Poll::Ready(Ok(None)),
                Outcome::Empty => Poll::Pending,
            }),
    {
        match self.advance() {
            Outcome::Value(value) => Poll::Ready(Ok(Some(value))),
            Outcome::Failed(err) => Poll::Ready(Err(err)),
            Outcome::Finished => Poll::Ready(Ok(None)),
            Outcome::Empty => Poll::Pending,
        }
    }

    /// Takes the next value off the queue if one is there.
    ///
    /// Gives `Closed` once every sender is gone and nothing is left, and
    /// `Empty` while nothing is there but senders remain. An error that
    /// leaves no hope for its source is held back while others may still
    /// deliver, and comes out at the end in place of `Closed`.
    pub fn try_recv(&mut self) -> (r: Result<T, TryRecvError>)
        requires
            old(self).wf(),
        ensures
            final(self).wf(),
            final(self)@ == old(self)@.received(),
            r == (match old(self)@.outcome() {
                Outcome::Value(value) => Ok::<T, TryRecvError>(value),
                Outcome::Failed(err) => Err(TryRecvError::of(err)),
                Outcome::Finished => Err(TryRecvError::Closed),
                Outcome::Empty => Err(TryRecvError::Empty),
            }),
    {
        match self.advance() {
            Outcome::Value(value) => Ok(value),
            Outcome::Failed(err) => Err(TryRecvError::from(err)),
            Outcome::Finished => Err(TryRecvError::Closed),
            Outcome::Empty => Err(TryRecvError::Empty),
        }
    }

    /// Receives the next value on a thread that may wait for it.
    ///
    /// To wait inside a task would hold up every task on its thread, so the
    /// call is for threads only. See [`Receiver::recv`].
    pub fn blocking_recv(&mut self, context: Context) -> (r: Result<Option<T>, RecvError>)
        requires
            old(self).wf(),
            old(self)@.ready(),
            context == Context::Thread,
        ensures
            final(self).wf(),
            final(self)@ == old(self)@.received(),
            r == (match old(self)@.outcome() {
                Outcome::Value(value) => Ok::<Option<T>, RecvError>(Some(value)),
                Outcome::Failed(err) => Err(err),
                Outcome::Finished => Ok(None),
                Outcome::Empty => Ok(None),
            }),
            !(old(self)@.outcome() is Empty),
    {
        self.recv()
    }

    /// Closes the receiver without letting it go: senders are told to stop,
    /// and what is in the queue can still be received.
    pub fn close(&mut self)
        ensures
            final(self)@ == (ReceiverView {
                queue: QueueView {
                    closed_signal: Some(ClosedReason::Closed),
                    closed: true,
                    ..old(self)@.queue
                },
                ..old(self)@
            }),
            old(self).wf() ==> final(self).wf(),
    {
        self.inner.closed_tx = Some(ClosedReason::Closed);
        self.inner.closed = true;
    }

    /// The error that is held back, if any: the first one that left no hope
    /// for its source while others could still deliver.
    pub fn error(&self) -> (held: &Option<RecvError>)
        ensures
            *held == self@.held,
    {
        &self.final_err
    }

    /// Gives up the error that is held back.
    pub fn take_error(&mut self) -> (held: Option<RecvError>)
        ensures
            held == old(self)@.held,
            final(self)@ == (ReceiverView { held: None, ..old(self)@ }),
            old(self).wf() ==> final(self).wf(),
    {
        self.final_err.take()
    }

    /// A sender offers a value. See [`ReceiverInner::try_send`].
    pub fn try_send(&mut self, value: T) -> (r: Result<(), TrySendError<T>>)
        requires
            old(self).wf(),
        ensures
            final(self).wf(),
            match old(self)@.queue.refusal(value) {
                Some(err) => r == Err::<(), TrySendError<T>>(err) && final(self)@ == old(self)@,
                None => r is Ok && final(self)@ == (ReceiverView {
                    queue: old(self)@.queue.with(Ok(value)),
                    ..old(self)@
                }),
            },
    {
        self.inner.try_send(value)
    }

    /// The task that feeds the queue offers an entry. See
    /// [`ReceiverInner::deliver`].
    pub fn deliver(&mut self, entry: Result<T, RecvError>) -> (r: Result<(), Result<T, RecvError>>)
        requires
            old(self).wf(),
        ensures
            final(self).wf(),
            if old(self)@.queue.accepts() {
                r is Ok && final(self)@ == (ReceiverView {
                    queue: old(self)@.queue.with(entry),
                    ..old(self)@
                })
            } else {
                r == Err::<(), Result<T, RecvError>>(entry) && final(self)@ == old(self)@
            },
    {
        self.inner.deliver(entry)
    }

    /// Another sender is attached.
    pub fn attach_sender(&mut self)
        requires
            old(self)@.queue.senders < usize::MAX,
        ensures
            final(self)@ == (ReceiverView {
                queue: QueueView {
                    senders: old(self)@.queue.senders + 1,
                    ..old(self)@.queue
                },
                ..old(self)@
            }),
            old(self).wf() ==> final(self).wf(),
    {
        self.inner.attach_sender();
    }

    /// A sender is gone.
    pub fn detach_sender(&mut self)
        ensures
            final(self)@ == (ReceiverView {
                queue: old(self)@.queue.less_one_sender(),
                ..old(self)@
            }),
            old(self).wf() ==> final(self).wf(),
    {
        self.inner.detach_sender();
    }

    /// Takes what a channel gave into the queue. See
    /// [`ReceiverView::arrived`].
    pub fn arrived(&mut self, arrival: Arrival<T>) -> (did: Fetch)
        requires
            old(self).wf(),
            old(self)@.queue.accepts(),
        ensures
            final(self).wf(),
            (final(self)@, did) == old(self)@.arrived(arrival),
    {
        match arrival {
            Arrival::Entry(entry) => {
                self.inner.rx.push_back(entry);
                Fetch::Taken
            },
            Arrival::Nothing => Fetch::Nothing,
            Arrival::Disconnected => {
                self.inner.detach_sender();
                Fetch::Disconnected
            },
        }
    }

    /// Takes the next entry of a channel into the queue, if the queue takes
    /// one now and the channel has one.
    ///
    /// What the channel gives is up to the tasks that send into it.
    /// Whatever it is, the queue is afterwards as
    /// [`ReceiverView::arrived`] says for it.
    pub fn fetch(&mut self, rx: &mut Channel<Result<T, RecvError>>) -> (did:
        Fetch)
        requires
            old(self).wf(),
        ensures
            final(self).wf(),
            if old(self)@.queue.accepts() {
                exists|arrival: Arrival<T>| (final(self)@, did) == old(self)@.arrived(arrival)
            } else {
                did == Fetch::Busy && final(self)@ == old(self)@
            },
    {
        if self.inner.senders == 0 || self.inner.rx.len() >= self.inner.capacity {
            return Fetch::Busy;
        }
        let arrival = channel_try_recv(rx);
        let ghost given = arrival;
        let did = self.arrived(arrival);
        assert((self@, did) == old(self)@.arrived(given));
        did
    }

    /// As [`Receiver::fetch`]; if the channel has nothing, the task of `cx`
    /// is woken when it has.
    pub fn poll_fetch(
        &mut self,
        rx: &mut Channel<Result<T, RecvError>>,
        cx: &mut Waking<'_>,
    ) -> (did: Fetch)
        requires
            old(self).wf(),
        ensures
            final(self).wf(),
            if old(self)@.queue.accepts() {
                exists|arrival: Arrival<T>| (final(self)@, did) == old(self)@.arrived(arrival)
            } else {
                did == Fetch::Busy && final(self)@ == old(self)@
            },
    {
        if self.inner.senders == 0 || self.inner.rx.len() >= self.inner.capacity {
            return Fetch::Busy;
        }
        let arrival = channel_poll_recv(rx, cx);
        let ghost given = arrival;
        let did = self.arrived(arrival);
        assert((self@, did) == old(self)@.arrived(given));
        did
    }

    /// The port of a received receiver was asked for and this came of it.
    ///
    /// On failure the error goes into the queue in place of any value, and
    /// the task that would have fed the queue counts no longer as a sender.
    pub fn accepted(&mut self, port: Result<(), chmux::ListenerError>) -> (state: Accepted)
        requires
            old(self).wf(),
        ensures
            final(self).wf(),
            match port {
                Ok(_) => state == Accepted::Receiving && final(self)@ == old(self)@,
                Err(err) => if old(self)@.queue.accepts() {
                    state == Accepted::Failed && final(self)@ == (ReceiverView {
                        queue: old(self)@.queue.with(
                            Err(RecvError::RemoteListen(err)),
                        ).less_one_sender(),
                        ..old(self)@
                    })
                } else {
                    state == Accepted::Busy && final(self)@ == old(self)@
                },
            },
    {
        match port {
            Ok(_) => Accepted::Receiving,
            Err(err) => match self.deliver(Err(RecvError::RemoteListen(err))) {
                Ok(_) => {
                    self.detach_sender();
                    Accepted::Failed
                },
                Err(_) => Accepted::Busy,
            },
        }
    }

    /// The port of a received receiver gave this: a value, its end, or an
    /// error.
    ///
    /// A value or an error goes into the queue. At the end of the port, or
    /// with an error after which the port gives nothing more, the task
    /// that feeds the queue counts no longer as a sender.
    pub fn port_received(&mut self, item: Result<Option<T>, base::RecvError>) -> (next: Feed)
        requires
            old(self).wf(),
        ensures
            final(self).wf(),
            match item {
                Ok(None) => next == Feed::Ended && final(self)@ == (ReceiverView {
                    queue: old(self)@.queue.less_one_sender(),
                    ..old(self)@
                }),
                Ok(Some(value)) => if old(self)@.queue.accepts() {
                    next == Feed::More && final(self)@ == (ReceiverView {
                        queue: old(self)@.queue.with(Ok(value)),
                        ..old(self)@
                    })
                } else {
                    next == Feed::Busy && final(self)@ == old(self)@
                },
                Err(err) => if !old(self)@.queue.accepts() {
                    next == Feed::Busy && final(self)@ == old(self)@
                } else if err.spec_is_final() {
                    next == Feed::Ended && final(self)@ == (ReceiverView {
                        queue: old(self)@.queue.with(
                            Err(RecvError::RemoteReceive(err)),
                        ).less_one_sender(),
                        ..old(self)@
                    })
                } else {
                    next == Feed::More && final(self)@ == (ReceiverView {
                        queue: old(self)@.queue.with(Err(RecvError::RemoteReceive(err))),
                        ..old(self)@
                    })
                },
            },
    {
        match item {
            Ok(None) => {
                self.detach_sender();
                Feed::Ended
            },
            Ok(Some(value)) => match self.deliver(Ok(value)) {
                Ok(_) => Feed::More,
                Err(_) => Feed::Busy,
            },
            Err(err) => match self.deliver(Err(RecvError::RemoteReceive(err))) {
                Ok(_) => {
                    if err.is_final() {
                        self.detach_sender();
                        Feed::Ended
                    } else {
                        Feed::More
                    }
                },
                Err(_) => Feed::Busy,
            },
        }
    }

    /// Tells the senders that the receiver is dropped, unless a forwarding
    /// task takes the queue over or the receiver had been closed.
    pub(crate) fn let_go(&mut self)
        ensures
            final(self)@ == old(self)@.let_go(),
            old(self).wf() ==> final(self).wf(),
    {
        if self.successor_tx.is_none() && !self.inner.closed {
            self.inner.closed_tx = Some(ClosedReason::Dropped);
        }
    }

    /// Lets the receiver go.
    ///
    /// If it was sent and the task that is to pass its queue on still waits
    /// for it, the queue goes to that task untouched. Else the senders are
    /// told that the receiver was dropped, unless it had been closed.
    pub fn release(self) -> (released: Released<T>)
        ensures
            released.inner()@ == self@.let_go().queue,
            match self@.successor {
                Some(port) => released matches Released::Successor { port: to, .. } && to == port,
                None => released is Abandoned,
            },
            self.wf() ==> released.inner().wf(),
    {
        let mut receiver = self;
        receiver.let_go();
        match receiver.successor_tx {
            Some(port) => Released::Successor { port, inner: receiver.inner },
            None => Released::Abandoned { inner: receiver.inner },
        }
    }

    /// Writes the receiver into a message.
    ///
    /// A port number is reserved for it and travels in its place, with the
    /// note whether the receiver had been closed. The receiver stays
    /// usable; when it is let go, its queue goes to the task that passes it
    /// on over that port. If no number is free, nothing changes.
    pub fn serialize(&mut self, serializer: &mut PortSerializer) -> (r: Result<
        TransportedReceiver<T, Codec>,
        SerializeError,
    >)
        requires
            old(serializer).wf(),
        ensures
            final(serializer).wf(),
            match r {
                Ok(transported) => {
                    &&& old(serializer).reserved(final(serializer), Ok(transported.port))
                    &&& transported.closed == old(self)@.queue.closed
                    &&& final(self)@ == (ReceiverView {
                        successor: Some(transported.port),
                        ..old(self)@
                    })
                },
                Err(err) => {
                    &&& old(serializer).reserved(final(serializer), Err(err))
                    &&& final(self)@ == old(self)@
                },
            },
            old(self).wf() ==> final(self).wf(),
    {
        match serializer.connect() {
            Ok(port) => {
                self.successor_tx = Some(port);
                Ok(
                    TransportedReceiver {
                        port,
                        data: PhantomData,
                        codec: PhantomData,
                        closed: self.inner.closed,
                    },
                )
            },
            Err(err) => Err(err),
        }
    }

    /// The same receiver, to be sent with another codec. The queue is not
    /// touched. A forwarding task that waited for this receiver waits in
    /// vain.
    pub fn set_codec<NewCodec>(self) -> (receiver: Receiver<T, NewCodec, Buffer>)
        ensures
            receiver@ == (ReceiverView { successor: None, ..self@ }),
            self.wf() ==> receiver.wf(),
    {
        Receiver {
            inner: self.inner,
            successor_tx: None,
            final_err: self.final_err,
            _codec: PhantomData,
            _buffer: PhantomData,
        }
    }
}

impl<T> Released<T> {
    /// The queue, wherever it goes.
    pub open spec fn inner(self) -> ReceiverInner<T> {
        match self {
            Released::Successor { inner, .. } => inner,
            Released::Abandoned { inner } => inner,
        }
    }
}

impl<T, Codec, Buffer> Receiver<T, Codec, Buffer> {
    /// The same receiver, to be sent with another queue size for the far
    /// side. The queue here is not touched. A forwarding task that waited
    /// for this receiver waits in vain.
    pub fn set_buffer<NewBuffer: Size>(self) -> (receiver: Receiver<T, Codec, NewBuffer>)
        requires
            NewBuffer::spec_size() > 0,
        ensures
            receiver@ == (ReceiverView { successor: None, ..self@ }),
            self.wf() ==> receiver.wf(),
    {
        Receiver {
            inner: self.inner,
            successor_tx: None,
            final_err: self.final_err,
            _codec: PhantomData,
            _buffer: PhantomData,
        }
    }
}

impl<T, Codec, Buffer: Size> Receiver<T, Codec, Buffer> {
    /// Rebuilds a receiver that arrived in a message.
    ///
    /// It gets an empty queue of the size that its type names, with the
    /// task that will feed it from the port as its one sender. If the one
    /// that was sent had been closed, this one is, and says so to whoever
    /// feeds it. Its port is noted for the caller to take up. Nothing
    /// waits: the receiver is usable at once.
    pub fn deserialize(
        transported: TransportedReceiver<T, Codec>,
        deserializer: &mut PortDeserializer,
    ) -> (r: Result<Self, DeserializeError>)
        requires
            Buffer::spec_size() > 0,
            old(deserializer).wf(),
        ensures
            final(deserializer).wf(),
            match r {
                Ok(receiver) => {
                    &&& old(deserializer).noted(final(deserializer), transported.port, Ok(()))
                    &&& receiver.wf()
                    &&& receiver@ == (ReceiverView::<T> {
                        queue: QueueView {
                            entries: Seq::empty(),
                            capacity: Buffer::spec_size() as nat,
                            senders: 1,
                            closed_signal: if transported.closed {
                                Some(ClosedReason::Closed)
                            } else {
                                None
                            },
                            send_error: None,
                            closed: transported.closed,
                        },
                        held: None,
                        successor: None,
                    })
                },
                Err(err) => old(deserializer).noted(
                    final(deserializer),
                    transported.port,
                    Err(err),
                ),
            },
    {
        match deserializer.accept(transported.port) {
            Ok(_) => Ok(Receiver::new(Buffer::size(), transported.closed)),
            Err(err) => Err(err),
        }
    }
}

/// The entries that a run of values makes in a queue.
pub open spec fn values_as_entries<T>(values: Seq<T>) -> Seq<Result<T, RecvError>> {
    Seq::new(values.len(), |i: int| Ok::<T, RecvError>(values[i]))
}

impl<T> QueueView<T> {
    /// The queue after each of the values has been sent in turn.
    pub open spec fn with_values(self, values: Seq<T>) -> QueueView<T>
        decreases values.len(),
    {
        if values.len() == 0 {
            self
        } else {
            self.with_values(values.drop_last()).with(Ok(values.last()))
        }
    }
}

impl<T> ReceiverView<T> {
    /// The state after `k` attempts to receive.
    pub open spec fn received_times(self, k: nat) -> ReceiverView<T>
        decreases k,
    {
        if k == 0 {
            self
        } else {
            self.received().received_times((k - 1) as nat)
        }
    }
}

/// A queue that holds only values gives them up one by one, in order.
proof fn lemma_values_come_in_order<T>(state: ReceiverView<T>, values: Seq<T>, k: nat)
    requires
        state.queue.entries == values_as_entries(values),
        k <= values.len(),
    ensures
        state.received_times(k) == (ReceiverView {
            queue: QueueView {
                entries: values_as_entries(values.skip(k as int)),
                ..state.queue
            },
            ..state
        }),
        k < values.len() ==> state.received_times(k).outcome() == Outcome::Value(values[k as int]),
    decreases k,
{
    if k == 0 {
        assert(values.skip(0) =~= values);
    } else {
        let next = state.received();
        let rest = values.skip(1);
        assert(final_run(state.queue.entries) == 0);
        assert(next.queue.entries =~= values_as_entries(rest));
        assert(next.held == state.held);
        lemma_values_come_in_order(next, rest, (k - 1) as nat);
        assert(rest.skip(k - 1) =~= values.skip(k as int));
        assert(next == (ReceiverView {
            queue: QueueView { entries: next.queue.entries, ..state.queue },
            ..state
        }));
    }
    if k < values.len() {
        let at = state.received_times(k);
        assert(at.queue.entries[0] == Ok::<T, RecvError>(values[k as int]));
        assert(final_run(at.queue.entries) == 0);
    }
}

/// Values that are sent and accepted are queued in the order in which they
/// were sent, behind what was there.
pub proof fn lemma_sent_values_queue_up<T>(queue: QueueView<T>, values: Seq<T>)
    ensures
        queue.with_values(values) == (QueueView {
            entries: queue.entries + values_as_entries(values),
            ..queue
        }),
    decreases values.len(),
{
    if values.len() == 0 {
        assert(queue.entries + values_as_entries(values) =~= queue.entries);
    } else {
        lemma_sent_values_queue_up(queue, values.drop_last());
        assert(queue.with_values(values).entries =~= queue.entries + values_as_entries(values));
    }
}

/// A queue that holds only values has them all at its front.
pub proof fn lemma_values_lead<T>(values: Seq<T>)
    ensures
        leading_values(values_as_entries(values)) == values,
    decreases values.len(),
{
    let entries = values_as_entries(values);
    if values.len() == 0 {
        assert(leading_values(entries) =~= values);
    } else {
        lemma_values_lead(values.skip(1));
        assert(entries.skip(1) =~= values_as_entries(values.skip(1)));
        assert(leading_values(entries) =~= values);
    }
}

/// A sender sends values and is dropped. The receiver then gets exactly
/// those values, in the order in which they were sent, and after them the
/// end.
///
/// The queue is empty and open at the start, with this sender alone and no
/// error held back, and has room for the values. Every one of them is
/// accepted.
pub proof fn lemma_sends_then_drop<T>(start: ReceiverView<T>, values: Seq<T>)
    requires
        start.queue.entries.len() == 0,
        start.queue.senders == 1,
        start.queue.closed_signal is None,
        start.queue.send_error is None,
        start.held is None,
        values.len() <= start.queue.capacity,
    ensures
        forall|i: int|
            0 <= i < values.len() ==> (#[trigger] start.queue.with_values(values.take(i))).refusal(
                values[i],
            ) is None,
        ({
            let dropped = ReceiverView {
                queue: start.queue.with_values(values).less_one_sender(),
                ..start
            };
            &&& forall|k: nat|
                k < values.len() ==> (#[trigger] dropped.received_times(k)).outcome()
                    == Outcome::Value(values[k as int])
            &&& dropped.received_times(values.len()).outcome() == Outcome::<T>::Finished
        }),
{
    assert forall|i: int| 0 <= i < values.len() implies (#[trigger] start.queue.with_values(
        values.take(i),
    )).refusal(values[i]) is None by {
        lemma_sent_values_queue_up(start.queue, values.take(i));
    }
    lemma_sent_values_queue_up(start.queue, values);
    let dropped = ReceiverView { queue: start.queue.with_values(values).less_one_sender(), ..start };
    assert(dropped.queue.entries =~= values_as_entries(values));
    assert forall|k: nat| k < values.len() implies (#[trigger] dropped.received_times(k)).outcome()
        == Outcome::Value(values[k as int]) by {
        lemma_values_come_in_order(dropped, values, k);
    }
    lemma_values_come_in_order(dropped, values, values.len());
    assert(dropped.received_times(values.len()).queue.entries.len() == 0);
}

/// The port fails after some values have come over it. The receiver gets
/// those values, in order, then the error, then the end: the error never
/// comes before a value that was delivered.
///
/// The queue holds the values and behind them the error, which is final;
/// no sender is left and no other error is held back.
pub proof fn lemma_failure_after_values<T>(state: ReceiverView<T>, values: Seq<T>, err: RecvError)
    requires
        state.queue.entries == values_as_entries(values).push(Err(err)),
        err.spec_is_final(),
        state.queue.senders == 0,
        state.held is None,
    ensures
        forall|k: nat|
            k < values.len() ==> (#[trigger] state.received_times(k)).outcome() == Outcome::Value(
                values[k as int],
            ),
        state.received_times(values.len()).outcome() == Outcome::<T>::Failed(err),
        state.received_times(values.len() + 1).outcome() == Outcome::<T>::Finished,
    decreases values.len(),
{
    if values.len() == 0 {
        assert(state.queue.entries[0] == Err::<T, RecvError>(err));
        assert(state.queue.entries.skip(1) =~= Seq::empty());
        assert(final_run(state.queue.entries.skip(1)) == 0);
        assert(final_run(state.queue.entries) == 1);
        let next = state.received();
        assert(next.received_times(0) == next);
        assert(state.received_times(1) == next);
        assert(next.queue.entries.len() == 0);
    } else {
        let next = state.received();
        let rest = values.skip(1);
        assert(state.queue.entries[0] == Ok::<T, RecvError>(values[0]));
        assert(final_run(state.queue.entries) == 0);
        assert(next.queue.entries =~= values_as_entries(rest).push(Err(err)));
        lemma_failure_after_values(next, rest, err);
        assert forall|k: nat| k < values.len() implies (#[trigger] state.received_times(
            k,
        )).outcome() == Outcome::Value(values[k as int]) by {
            if k > 0 {
                assert(state.received_times(k) == next.received_times((k - 1) as nat));
                assert(rest[k - 1] == values[k as int]);
            }
        }
        assert(state.received_times(values.len()) == next.received_times(rest.len()));
        assert(state.received_times(values.len() + 1) == next.received_times(rest.len() + 1));
    }
}

/// A final error is reported only when nothing else can be: no entry that
/// is not a final error waits, no sender is left, and the queue is empty
/// afterwards.
pub proof fn lemma_final_error_comes_last<T>(state: ReceiverView<T>, err: RecvError)
    requires
        state.outcome() == Outcome::<T>::Failed(err),
        err.spec_is_final(),
    ensures
        state.queue.senders == 0,
        forall|i: int|
            0 <= i < state.queue.entries.len() ==> is_final_entry(#[trigger] state.queue.entries[i]),
        state.received().queue.entries.len() == 0,
        state.received().held is None,
{
    lemma_final_run(state.queue.entries);
}

/// An attempt to receive finds the queue empty exactly while senders
/// remain and nothing but final errors waits; it finds the end only when
/// every sender is gone, the queue is empty and no error is held back.
pub proof fn lemma_empty_or_closed<T>(state: ReceiverView<T>)
    ensures
        state.queue.entries.len() == 0 && state.queue.senders > 0 ==> state.outcome() is Empty,
        state.outcome() is Empty ==> state.queue.senders > 0,
        state.outcome() is Finished ==> state.queue.senders == 0 && state.queue.entries.len() == 0
            && state.held is None,
        state.outcome() is Empty <==> !state.ready(),
{
    lemma_final_run(state.queue.entries);
}

impl<T, Codec, Buffer> Receiver<T, Codec, Buffer> {
    /// Spreads what this receiver gets over several receivers: each value
    /// goes to one of them.
    ///
    /// With `wait_on_empty` the distributor waits while nobody listens;
    /// without, it ends then.
    pub fn distribute(self, wait_on_empty: bool) -> (distributor: Distributor<T, Codec, Buffer>)
        requires
            self.wf(),
        ensures
            distributor.wf(),
            distributor@ == (DistributorView {
                upstream: self@,
                outlets: Seq::empty(),
                wait_on_empty,
                terminated: false,
                cursor: 0,
            }),
    {
        Distributor::new(self, wait_on_empty)
    }
}

} // verus!
