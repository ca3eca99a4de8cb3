//! A queue with many receivers, each of which sees every value.
//!
//! The sender keeps one buffer for each receiver. A receiver that does not
//! keep up misses values; it is told so by a marker in its stream, and
//! the others are not held up.

use crate::codec::DefaultCodec;
use std::collections::VecDeque;
use std::marker::PhantomData;
use vstd::prelude::*;

verus! {

/// What travels to a receiver.
#[derive(Clone, Copy, Debug, PartialEq, Eq, Structural)]
pub enum BroadcastMsg<T> {
    /// A value.
    Value(T),
    /// Values were missed before what follows.
    Lagged,
}

/// Sending a value failed. The value comes back.
#[derive(Debug, PartialEq, Eq, Structural)]
pub enum SendError<T> {
    /// No receiver is left, or the sender has been closed.
    Closed(T),
}

/// Trying to receive, without waiting, gave no value.
#[derive(Clone, Copy, Debug, PartialEq, Eq, Structural)]
pub enum TryRecvError {
    /// The sender is closed and nothing is left.
    Closed,
    /// Nothing is ready now.
    Empty,
    /// Values were missed. What follows is in order again.
    Lagged,
}

/// What happens to a receiver's stream when something is done.
#[derive(Clone, Copy, Debug, PartialEq, Eq, Structural)]
pub enum Event<T> {
    /// A value went into the buffer.
    Delivered(T),
    /// A value found no room and was missed.
    Missed,
    /// The marker for missed values went into the buffer.
    Marker,
}

/// Something that is done to the buffer of one receiver.
#[derive(Clone, Copy, Debug, PartialEq, Eq, Structural)]
pub enum Op<T> {
    /// The sender sends a value.
    Send(T),
    /// The receiver takes what is at the front.
    Recv,
}

/// The buffer of one receiver, as the sender keeps it.
pub struct Subscription<T> {
    /// What waits, oldest first.
    pub queue: Seq<BroadcastMsg<T>>,
    /// How many messages the buffer has room for.
    pub capacity: nat,
    /// Whether values were missed that no marker tells of yet.
    pub lagged: bool,
    /// Whether the receiver still listens.
    pub open: bool,
}

/// How far a receiver's stream is in telling of what was missed.
#[derive(Clone, Copy, Debug, PartialEq, Eq, Structural)]
pub enum Phase {
    /// Nothing was missed since the last value that was delivered.
    Clean,
    /// Values were missed and no marker tells of them yet.
    Lagging,
    /// Values were missed and the marker for them stands in the stream;
    /// no value has been delivered behind it yet.
    Marked,
}

/// The phase that an event leads to, if the event may follow in this
/// phase.
///
/// A marker follows only where values were missed and no marker stands
/// for them yet; a value is delivered behind missed ones only when their
/// marker stands. So between two deliveries, and before the first, there
/// is one marker if anything was missed and none if nothing was.
pub open spec fn next_phase<T>(phase: Phase, event: Event<T>) -> Option<Phase> {
    match (phase, event) {
        (Phase::Clean, Event::Delivered(_)) => Some(Phase::Clean),
        (Phase::Clean, Event::Missed) => Some(Phase::Lagging),
        (Phase::Clean, Event::Marker) => None,
        (Phase::Lagging, Event::Delivered(_)) => None,
        (Phase::Lagging, Event::Missed) => Some(Phase::Lagging),
        (Phase::Lagging, Event::Marker) => Some(Phase::Marked),
        (Phase::Marked, Event::Delivered(_)) => Some(Phase::Clean),
        (Phase::Marked, Event::Missed) => Some(Phase::Marked),
        (Phase::Marked, Event::Marker) => None,
    }
}

/// The phase at the end of a stream that starts in `phase`, if every event
/// of the stream may follow where it stands.
pub open spec fn end_phase<T>(phase: Phase, trace: Seq<Event<T>>) -> Option<Phase>
    decreases trace.len(),
{
    if trace.len() == 0 {
        Some(phase)
    } else {
        match next_phase(phase, trace[0]) {
            None => None,
            Some(next) => end_phase(next, trace.skip(1)),
        }
    }
}

impl<T> Subscription<T> {
    /// Whether the buffer is full.
    pub open spec fn full(self) -> bool {
        self.queue.len() >= self.capacity
    }

    /// Whether the last message in the buffer is the marker.
    pub open spec fn ends_in_marker(self) -> bool {
        self.queue.len() > 0 && self.queue.last() == BroadcastMsg::<T>::Lagged
    }

    /// What sending `value` does to the stream.
    ///
    /// A receiver that keeps up gets the value. One whose buffer is full
    /// misses it. One that has missed values gets the marker as soon as
    /// there is room, and the value behind it if there is room for that
    /// too.
    pub open spec fn events_of_send(self, value: T) -> Seq<Event<T>> {
        if !self.open {
            Seq::empty()
        } else if self.full() {
            seq![Event::Missed]
        } else if !self.lagged {
            seq![Event::Delivered(value)]
        } else if self.queue.len() + 1 < self.capacity {
            seq![Event::Marker, Event::Delivered(value)]
        } else {
            seq![Event::Marker, Event::Missed]
        }
    }

    /// What an operation does to the stream.
    pub open spec fn events(self, op: Op<T>) -> Seq<Event<T>> {
        match op {
            Op::Send(value) => self.events_of_send(value),
            Op::Recv => Seq::empty(),
        }
    }

    /// The buffer after `value` has been sent.
    ///
    /// A value that is missed is remembered as missed, unless the marker
    /// is the last thing in the buffer: then the receiver will learn of it
    /// from that marker.
    pub open spec fn sent(self, value: T) -> Subscription<T> {
        if !self.open {
            self
        } else if self.full() {
            Subscription { lagged: self.lagged || !self.ends_in_marker(), ..self }
        } else if !self.lagged {
            Subscription { queue: self.queue.push(BroadcastMsg::Value(value)), ..self }
        } else if self.queue.len() + 1 < self.capacity {
            Subscription {
                queue: self.queue.push(BroadcastMsg::Lagged).push(BroadcastMsg::Value(value)),
                lagged: false,
                ..self
            }
        } else {
            Subscription { queue: self.queue.push(BroadcastMsg::Lagged), lagged: false, ..self }
        }
    }

    /// The buffer after an operation.
    pub open spec fn after(self, op: Op<T>) -> Subscription<T> {
        match op {
            Op::Send(value) => self.sent(value),
            Op::Recv => if self.queue.len() > 0 {
                Subscription { queue: self.queue.skip(1), ..self }
            } else {
                self
            },
        }
    }

    /// The buffer after a run of operations, in order.
    pub open spec fn after_all(self, ops: Seq<Op<T>>) -> Subscription<T>
        decreases ops.len(),
    {
        if ops.len() == 0 {
            self
        } else {
            self.after(ops[0]).after_all(ops.skip(1))
        }
    }

    /// What a run of operations does to the stream, in order.
    pub open spec fn trace(self, ops: Seq<Op<T>>) -> Seq<Event<T>>
        decreases ops.len(),
    {
        if ops.len() == 0 {
            Seq::empty()
        } else {
            self.events(ops[0]) + self.after(ops[0]).trace(ops.skip(1))
        }
    }

    /// Whether the buffer is within its bounds.
    pub open spec fn wf(self) -> bool {
        0 < self.capacity && self.queue.len() <= self.capacity
    }

    /// Whether the buffer is in this phase: it remembers missed values
    /// exactly while no marker tells of them, and behind a marker nothing
    /// has been put yet.
    pub open spec fn in_phase(self, phase: Phase) -> bool {
        match phase {
            Phase::Clean => !self.lagged && !self.ends_in_marker(),
            Phase::Lagging => self.lagged,
            Phase::Marked => !self.lagged && (self.queue.len() == 0 || self.ends_in_marker()),
        }
    }
}

/// The phase at the end of two streams in a row is the phase at the end of
/// the second, started where the first ends.
proof fn lemma_end_phase_of_joined<T>(phase: Phase, first: Seq<Event<T>>, second: Seq<Event<T>>)
    ensures
        end_phase(phase, first + second) == (match end_phase(phase, first) {
            None => None,
            Some(middle) => end_phase(middle, second),
        }),
    decreases first.len(),
{
    if first.len() == 0 {
        assert(first + second =~= second);
    } else {
        assert((first + second)[0] == first[0]);
        assert((first + second).skip(1) =~= first.skip(1) + second);
        match next_phase(phase, first[0]) {
            None => {},
            Some(next) => {
                lemma_end_phase_of_joined(next, first.skip(1), second);
            },
        }
    }
}

/// What one operation does to the stream may follow in the phase the
/// buffer is in, and leaves the buffer in the phase it leads to.
proof fn lemma_step_keeps_phase<T>(sub: Subscription<T>, phase: Phase, op: Op<T>)
    requires
        sub.wf(),
        sub.in_phase(phase),
    ensures
        sub.after(op).wf(),
        end_phase(phase, sub.events(op)) matches Some(end) && sub.after(op).in_phase(end),
{
    reveal_with_fuel(end_phase, 3);
    match op {
        Op::Send(value) => {
            let events = sub.events_of_send(value);
            if events.len() == 2 {
                assert(events.skip(1) =~= seq![events[1]]);
                assert(events.skip(1).skip(1) =~= Seq::<Event<T>>::empty());
            } else if events.len() == 1 {
                assert(events.skip(1) =~= Seq::<Event<T>>::empty());
            }
        },
        Op::Recv => {
            if sub.queue.len() > 1 {
                assert(sub.queue.skip(1).last() == sub.queue.last());
            }
        },
    }
}

/// Whatever is sent and however the receiver keeps up, its stream tells
/// of what it missed: between two values that are delivered, and before
/// the first, one marker stands if values were missed and none if none
/// were, and no value is delivered behind missed ones before their marker.
///
/// `phase` is the phase the buffer is in at the start; for a buffer that
/// has just been made it is `Clean`.
pub proof fn lemma_stream_is_marked<T>(sub: Subscription<T>, phase: Phase, ops: Seq<Op<T>>)
    requires
        sub.wf(),
        sub.in_phase(phase),
    ensures
        sub.after_all(ops).wf(),
        end_phase(phase, sub.trace(ops)) matches Some(end) && sub.after_all(ops).in_phase(end),
    decreases ops.len(),
{
    if ops.len() > 0 {
        let next = sub.after(ops[0]);
        lemma_step_keeps_phase(sub, phase, ops[0]);
        let middle = end_phase(phase, sub.events(ops[0]))->Some_0;
        lemma_stream_is_marked(next, middle, ops.skip(1));
        lemma_end_phase_of_joined(phase, sub.events(ops[0]), next.trace(ops.skip(1)));
    }
}

/// A receiver that never finds its buffer full gets every value, in the
/// order in which they were sent, and no marker.
pub proof fn lemma_keeping_up<T>(sub: Subscription<T>, values: Seq<T>)
    requires
        sub.wf(),
        sub.open,
        !sub.lagged,
        sub.queue.len() + values.len() <= sub.capacity,
    ensures
        sub.after_all(sends(values)) == (Subscription {
            queue: sub.queue + values_as_messages(values),
            ..sub
        }),
        sub.trace(sends(values)) == Seq::new(values.len(), |i: int| Event::Delivered(values[i])),
    decreases values.len(),
{
    let ops = sends(values);
    let delivered = Seq::new(values.len(), |i: int| Event::Delivered(values[i]));
    if values.len() == 0 {
        assert(sub.queue + values_as_messages(values) =~= sub.queue);
        assert(sub.trace(ops) =~= delivered);
    } else {
        let next = sub.after(ops[0]);
        let rest = values.skip(1);
        assert(ops.skip(1) =~= sends(rest));
        lemma_keeping_up(next, rest);
        assert(next.queue + values_as_messages(rest) =~= sub.queue + values_as_messages(values));
        assert(sub.trace(ops) =~= delivered);
    }
}

/// Behind the marker the values come again: a receiver that has been told
/// of what it missed gets what is sent next, in order, as far as it has
/// room.
pub proof fn lemma_resumes_behind_marker<T>(sub: Subscription<T>, values: Seq<T>)
    requires
        sub.wf(),
        sub.open,
        sub.in_phase(Phase::Marked),
        sub.queue.len() + values.len() <= sub.capacity,
    ensures
        sub.after_all(sends(values)).queue == sub.queue + values_as_messages(values),
        values.len() > 0 ==> end_phase(Phase::Marked, sub.trace(sends(values))) == Some(
            Phase::Clean,
        ),
{
    lemma_keeping_up(sub, values);
    if values.len() > 0 {
        lemma_delivered_end_clean(Phase::Marked, values);
    }
}

/// A stream of deliveries ends clean.
proof fn lemma_delivered_end_clean<T>(phase: Phase, values: Seq<T>)
    requires
        phase != Phase::Lagging,
        values.len() > 0,
    ensures
        end_phase(phase, Seq::new(values.len(), |i: int| Event::Delivered(values[i]))) == Some(
            Phase::Clean,
        ),
    decreases values.len(),
{
    let trace = Seq::new(values.len(), |i: int| Event::Delivered(values[i]));
    let rest = values.skip(1);
    assert(trace.skip(1) =~= Seq::new(rest.len(), |i: int| Event::Delivered(rest[i])));
    if rest.len() > 0 {
        lemma_delivered_end_clean(Phase::Clean, rest);
    }
}

/// The operations of sending these values, in order.
pub open spec fn sends<T>(values: Seq<T>) -> Seq<Op<T>> {
    Seq::new(values.len(), |i: int| Op::Send(values[i]))
}

/// These values as they stand in a buffer.
pub open spec fn values_as_messages<T>(values: Seq<T>) -> Seq<BroadcastMsg<T>> {
    Seq::new(values.len(), |i: int| BroadcastMsg::Value(values[i]))
}

/// The buffer of one receiver.
struct Slot<T> {
    queue: VecDeque<BroadcastMsg<T>>,
    capacity: usize,
    lagged: bool,
    open: bool,
}

impl<T> View for Slot<T> {
    type V = Subscription<T>;

    closed spec fn view(&self) -> Subscription<T> {
        Subscription {
            queue: self.queue@,
            capacity: self.capacity as nat,
            lagged: self.lagged,
            open: self.open,
        }
    }
}

impl<T: Copy> Slot<T> {
    /// Offers a value to the receiver.
    fn send(&mut self, value: T)
        requires
            old(self)@.wf(),
        ensures
            final(self)@.wf(),
            final(self)@ == old(self)@.after(Op::Send(value)),
    {
        if !self.open {
            return ;
        }
        let len = self.queue.len();
        if len >= self.capacity {
            if !self.lagged {
                let covered = match &self.queue[len - 1] {
                    BroadcastMsg::Lagged => true,
                    BroadcastMsg::Value(_) => false,
                };
                self.lagged = !covered;
            }
            return ;
        }
        if self.lagged {
            self.queue.push_back(BroadcastMsg::Lagged);
            self.lagged = false;
            if self.queue.len() >= self.capacity {
                return ;
            }
        }
        self.queue.push_back(BroadcastMsg::Value(value));
    }
}

/// The sending half. It keeps the buffers of all receivers.
pub struct Sender<T, Codec = DefaultCodec> {
    subs: Vec<Slot<T>>,
    closed: bool,
    _codec: PhantomData<Codec>,
}

/// A receiving half: the right to take from one of the sender's buffers.
///
/// `RECV_BUFFER` is the size of the queue that the receiver gets when it is
/// sent to the peer.
#[derive(Debug)]
pub struct Receiver<T, Codec, const RECV_BUFFER: usize> {
    id: usize,
    _data: PhantomData<T>,
    _codec: PhantomData<Codec>,
}

impl<T, Codec, const RECV_BUFFER: usize> Receiver<T, Codec, RECV_BUFFER> {
    /// Which of the sender's buffers this receiver takes from: they are
    /// numbered in the order in which the receivers subscribed.
    pub closed spec fn id(&self) -> nat {
        self.id as nat
    }

    /// Which of the sender's buffers this receiver takes from.
    pub fn index(&self) -> (id: usize)
        ensures
            id == self.id(),
    {
        self.id
    }
}

impl<T, Codec> Sender<T, Codec> {
    /// The buffers, in the order in which their receivers subscribed.
    pub closed spec fn subscriptions(&self) -> Seq<Subscription<T>> {
        Seq::new(self.subs@.len(), |i: int| self.subs@[i]@)
    }

    /// Whether the sender has been closed.
    pub closed spec fn is_closed(&self) -> bool {
        self.closed
    }

    /// Whether every buffer is within its bounds.
    pub closed spec fn wf(&self) -> bool {
        forall|i: int| 0 <= i < self.subs@.len() ==> (#[trigger] self.subs@[i])@.wf()
    }

    /// Whether a receiver still listens.
    pub open spec fn has_listener(&self) -> bool {
        exists|i: int|
            0 <= i < self.subscriptions().len() && (#[trigger] self.subscriptions()[i]).open
    }

    /// A sender without receivers.
    pub fn new() -> (sender: Self)
        ensures
            sender.wf(),
            sender.subscriptions() == Seq::<Subscription<T>>::empty(),
            !sender.is_closed(),
    {
        let sender = Sender { subs: Vec::new(), closed: false, _codec: PhantomData };
        assert(sender.subscriptions() =~= Seq::<Subscription<T>>::empty());
        sender
    }

    /// Adds a receiver, with a buffer of `send_buffer` messages on this
    /// side. It sees the values that are sent from now on.
    pub fn subscribe<const RECV_BUFFER: usize>(&mut self, send_buffer: usize) -> (receiver:
        Receiver<T, Codec, RECV_BUFFER>)
        requires
            old(self).wf(),
            send_buffer > 0,
        ensures
            final(self).wf(),
            final(self).is_closed() == old(self).is_closed(),
            receiver.id() == old(self).subscriptions().len(),
            final(self).subscriptions() == old(self).subscriptions().push(
                Subscription {
                    queue: Seq::empty(),
                    capacity: send_buffer as nat,
                    lagged: false,
                    open: true,
                },
            ),
    {
        let id = self.subs.len();
        self.subs.push(
            Slot { queue: VecDeque::new(), capacity: send_buffer, lagged: false, open: true },
        );
        assert(self.subscriptions() =~= old(self).subscriptions().push(
            Subscription {
                queue: Seq::empty(),
                capacity: send_buffer as nat,
                lagged: false,
                open: true,
            },
        ));
        Receiver { id, _data: PhantomData, _codec: PhantomData }
    }

    /// Closes the sender: nothing more is sent, and receivers learn of the
    /// end when they have taken what waits for them.
    pub fn close(&mut self)
        ensures
            final(self).is_closed(),
            final(self).subscriptions() == old(self).subscriptions(),
            old(self).wf() ==> final(self).wf(),
    {
        self.closed = true;
    }

    /// A receiver stops listening. What waited for it is dropped. Says
    /// whether it had been listening.
    pub fn unsubscribe<const RECV_BUFFER: usize>(
        &mut self,
        receiver: Receiver<T, Codec, RECV_BUFFER>,
    ) -> (listened: bool)
        requires
            old(self).wf(),
        ensures
            final(self).wf(),
            final(self).is_closed() == old(self).is_closed(),
            listened == (receiver.id() < old(self).subscriptions().len() && old(self).subscriptions()[receiver.id() as int].open),
            final(self).subscriptions() == (if receiver.id() < old(self).subscriptions().len() {
                old(self).subscriptions().update(
                    receiver.id() as int,
                    Subscription {
                        queue: Seq::empty(),
                        open: false,
                        ..old(self).subscriptions()[receiver.id() as int]
                    },
                )
            } else {
                old(self).subscriptions()
            }),
    {
        let id = receiver.id;
        if id >= self.subs.len() {
            assert(self.subscriptions() =~= old(self).subscriptions());
            return false;
        }
        let listened = self.subs[id].open;
        let capacity = self.subs[id].capacity;
        let lagged = self.subs[id].lagged;
        self.subs.set(id, Slot { queue: VecDeque::new(), capacity, lagged, open: false });
        assert(self.subscriptions() =~= old(self).subscriptions().update(
            id as int,
            Subscription {
                queue: Seq::empty(),
                open: false,
                ..old(self).subscriptions()[id as int]
            },
        ));
        listened
    }

    /// Takes what is at the front of a receiver's buffer.
    ///
    /// Gives the next value, or `Lagged` where values were missed. With
    /// nothing in the buffer it gives `Closed` if the sender is closed or
    /// the receiver does not listen, else `Empty`.
    pub fn try_recv<const RECV_BUFFER: usize>(
        &mut self,
        receiver: &Receiver<T, Codec, RECV_BUFFER>,
    ) -> (r: Result<T, TryRecvError>)
        requires
            old(self).wf(),
        ensures
            final(self).wf(),
            final(self).is_closed() == old(self).is_closed(),
            final(self).subscriptions() == (if receiver.id() < old(self).subscriptions().len() {
                old(self).subscriptions().update(
                    receiver.id() as int,
                    old(self).subscriptions()[receiver.id() as int].after(Op::Recv),
                )
            } else {
                old(self).subscriptions()
            }),
            r == (if receiver.id() < old(self).subscriptions().len() && old(self).subscriptions()[receiver.id() as int].queue.len() > 0 {
                match old(self).subscriptions()[receiver.id() as int].queue[0] {
                    BroadcastMsg::Value(value) => Ok::<T, TryRecvError>(value),
                    BroadcastMsg::Lagged => Err(TryRecvError::Lagged),
                }
            } else if receiver.id() < old(self).subscriptions().len() && !old(self).is_closed()
                && old(self).subscriptions()[receiver.id() as int].open {
                Err(TryRecvError::Empty)
            } else {
                Err(TryRecvError::Closed)
            }),
    {
        let id = receiver.id;
        if id >= self.subs.len() {
            assert(self.subscriptions() =~= old(self).subscriptions());
            return Err(TryRecvError::Closed);
        }
        let closed = self.closed;
        let ghost before = self.subs@[id as int]@;
        let slot = &mut self.subs[id];
        let open = slot.open;
        let front = slot.queue.pop_front();
        assert(self.subscriptions() =~= old(self).subscriptions().update(
            id as int,
            before.after(Op::Recv),
        ));
        match front {
            Some(BroadcastMsg::Value(value)) => Ok(value),
            Some(BroadcastMsg::Lagged) => Err(TryRecvError::Lagged),
            None => {
                if !closed && open {
                    Err(TryRecvError::Empty)
                } else {
                    Err(TryRecvError::Closed)
                }
            },
        }
    }
}

impl<T: Copy, Codec> Sender<T, Codec> {
    /// Sends a value to every receiver that listens.
    ///
    /// Each receiver is served by itself: one whose buffer is full misses
    /// the value and will find a marker in its place, and the others get
    /// the value all the same. The value comes back if the sender is
    /// closed or no receiver listens.
    pub fn send(&mut self, value: T) -> (r: Result<(), SendError<T>>)
        requires
            old(self).wf(),
        ensures
            final(self).wf(),
            final(self).is_closed() == old(self).is_closed(),
            r is Ok <==> !old(self).is_closed() && old(self).has_listener(),
            r is Err ==> r == Err::<(), SendError<T>>(SendError::Closed(value)) && final(self).subscriptions() == old(self).subscriptions(),
            r is Ok ==> final(self).subscriptions().len() == old(self).subscriptions().len()
                && forall|i: int|
                0 <= i < old(self).subscriptions().len() ==> (#[trigger] final(self).subscriptions()[i]) == old(self).subscriptions()[i].after(Op::Send(value)),
    {
        if self.closed {
            return Err(SendError::Closed(value));
        }
        let mut listens = false;
        let mut i: usize = 0;
        while i < self.subs.len()
            invariant
                i <= self.subs@.len(),
                listens <==> exists|j: int| 0 <= j < i && (#[trigger] self.subs@[j])@.open,
            decreases self.subs@.len() - i,
        {
            if self.subs[i].open {
                listens = true;
            }
            i += 1;
        }
        if !listens {
            assert(!self.has_listener()) by {
                if self.has_listener() {
                    let j = choose|j: int|
                        0 <= j < self.subscriptions().len() && (
                        #[trigger] self.subscriptions()[j]).open;
                    assert(self.subs@[j]@.open);
                }
            }
            return Err(SendError::Closed(value));
        }
        assert(self.has_listener()) by {
            let j = choose|j: int| 0 <= j < i && (#[trigger] self.subs@[j])@.open;
            assert(self.subscriptions()[j].open);
        }
        let mut i: usize = 0;
        while i < self.subs.len()
            invariant
                self.wf(),
                self.closed == old(self).closed,
                i <= self.subs@.len(),
                self.subs@.len() == old(self).subs@.len(),
                forall|j: int|
                    0 <= j < i ==> (#[trigger] self.subs@[j])@ == old(self).subs@[j]@.after(
                        Op::Send(value),
                    ),
                forall|j: int|
                    i <= j < self.subs@.len() ==> (#[trigger] self.subs@[j])@ == old(self).subs@[j]@,
            decreases self.subs@.len() - i,
        {
            let slot = &mut self.subs[i];
            slot.send(value);
            i += 1;
        }
        Ok(())
    }
}

/// Makes a sender and a first receiver. The receiver's buffer on this side
/// has room for `send_buffer` messages; further receivers subscribe with
/// the sender.
pub fn channel<T, Codec, const RECV_BUFFER: usize>(send_buffer: usize) -> (halves: (
    Sender<T, Codec>,
    Receiver<T, Codec, RECV_BUFFER>,
))
    requires
        send_buffer > 0,
    ensures
        halves.0.wf(),
        !halves.0.is_closed(),
        halves.1.id() == 0,
        halves.0.subscriptions() == seq![
            Subscription::<T> {
                queue: Seq::empty(),
                capacity: send_buffer as nat,
                lagged: false,
                open: true,
            },
        ],
{
    let mut sender = Sender::new();
    let receiver = sender.subscribe(send_buffer);
    assert(sender.subscriptions() =~= seq![
        Subscription::<T> {
            queue: Seq::empty(),
            capacity: send_buffer as nat,
            lagged: false,
            open: true,
        },
    ]);
    (sender, receiver)
}

} // verus!
