//! The sending half of a queue whose receiver is at the far side.
//!
//! A sender that arrives in a message is usable at once. What is sent
//! through it waits in a queue of its own until its port is there, and is
//! then passed on in the order in which it was sent.

use crate::chmux;
use crate::codec::DefaultCodec;
use crate::rch::base::{DeserializeError, PortDeserializer};
use crate::rch::buffer::{DefaultSize, Size};
use crate::rch::mpsc::receiver::{Forward, QueueView, ReceiverInner, TrySendError};
use crate::rch::{ClosedReason, RemoteSendError};
use std::marker::PhantomData;
use vstd::prelude::*;

verus! {

/// A sender as it travels: the port on which its values will go, and
/// whether its receiver had been closed.
#[derive(Debug)]
pub struct TransportedSender<T, Codec> {
    /// The port number.
    pub port: u32,
    /// The value type.
    pub data: PhantomData<T>,
    /// The codec.
    pub codec: PhantomData<Codec>,
    /// Whether the receiver had been closed.
    pub closed: bool,
}

impl<T, Codec> TransportedSender<T, Codec> {
    /// The sender that these fields describe. A message that does not say
    /// whether the receiver had been closed means that it had not.
    pub fn from_fields(port: u32, closed: Option<bool>) -> (transported: Self)
        ensures
            transported.port == port,
            transported.closed == (closed == Some(true)),
    {
        let closed = match closed {
            Some(closed) => closed,
            None => false,
        };
        TransportedSender { port, data: PhantomData, codec: PhantomData, closed }
    }
}

/// Sends values to a receiver at the far side.
pub struct Sender<T, Codec = DefaultCodec, Buffer = DefaultSize> {
    queue: ReceiverInner<T>,
    _codec: PhantomData<Codec>,
    _buffer: PhantomData<Buffer>,
}

impl<T, Codec, Buffer> View for Sender<T, Codec, Buffer> {
    type V = QueueView<T>;

    closed spec fn view(&self) -> QueueView<T> {
        self.queue@
    }
}

impl<T, Codec, Buffer> Sender<T, Codec, Buffer> {
    /// Whether the queue is within its bounds.
    pub closed spec fn wf(&self) -> bool {
        self.queue.wf()
    }

    /// Sends a value: it waits in the queue until it can be passed on. It
    /// comes back with the reason if an earlier value is known not to
    /// have got through, if the receiver takes no more, or if the queue is
    /// full.
    pub fn try_send(&mut self, value: T) -> (r: Result<(), TrySendError<T>>)
        requires
            old(self).wf(),
        ensures
            final(self).wf(),
            match old(self)@.refusal(value) {
                Some(err) => r == Err::<(), TrySendError<T>>(err) && final(self)@ == old(self)@,
                None => r is Ok && final(self)@ == old(self)@.with(Ok(value)),
            },
    {
        self.queue.try_send(value)
    }

    /// The port of the sender was to be taken up and this came of it. On
    /// failure whoever sends is told from now on; the result says whether
    /// passing on can begin.
    pub fn accepted(&mut self, port: Result<(), chmux::ListenerError>) -> (go_on: bool)
        ensures
            go_on == port is Ok,
            final(self)@ == (match port {
                Ok(_) => old(self)@,
                Err(err) => QueueView {
                    send_error: Some(RemoteSendError::Listen(err)),
                    ..old(self)@
                },
            }),
            old(self).wf() ==> final(self).wf(),
    {
        self.queue.listened(port)
    }

    /// The receiver at the far side takes no more: whoever sends is told
    /// from now on.
    pub fn closed(&mut self, reason: ClosedReason)
        ensures
            final(self)@ == (QueueView { closed_signal: Some(reason), ..old(self)@ }),
            old(self).wf() ==> final(self).wf(),
    {
        self.queue.tell_closed(reason);
    }

    /// Passes on everything that can be passed on now: the values that
    /// wait, in the order in which they were sent. See
    /// [`ReceiverInner::forward_all`].
    pub fn forward_all(&mut self) -> (r: (Vec<T>, Forward<T>))
        requires
            old(self).wf(),
        ensures
            final(self).wf(),
            r.0@ == old(self)@.leading_values(),
            r.1 == (if r.0@.len() < old(self)@.entries.len() {
                Forward::<T>::Stop
            } else if old(self)@.senders > 0 {
                Forward::Wait
            } else {
                Forward::Done
            }),
            final(self)@ == (QueueView {
                entries: if r.0@.len() < old(self)@.entries.len() {
                    old(self)@.entries.skip(r.0@.len() as int + 1)
                } else {
                    Seq::empty()
                },
                send_error: if r.0@.len() < old(self)@.entries.len() {
                    Some(RemoteSendError::Forward)
                } else {
                    old(self)@.send_error
                },
                ..old(self)@
            }),
    {
        self.queue.forward_all()
    }

    /// Lets the sender go. What waits in its queue is still to be passed
    /// on: the queue comes back, with one sender less.
    pub fn release(self) -> (queue: ReceiverInner<T>)
        ensures
            queue@ == self@.less_one_sender(),
            self.wf() ==> queue.wf(),
    {
        let mut queue = self.queue;
        queue.detach_sender();
        queue
    }
}

impl<T, Codec, Buffer: Size> Sender<T, Codec, Buffer> {
    /// Rebuilds a sender that arrived in a message.
    ///
    /// It gets an empty queue of the size that its type names and is
    /// usable at once; if its receiver had been closed it knows so. Its
    /// port is noted for the caller to take up. Nothing waits.
    pub fn deserialize(
        transported: TransportedSender<T, Codec>,
        deserializer: &mut PortDeserializer,
    ) -> (r: Result<Self, DeserializeError>)
        requires
            Buffer::spec_size() > 0,
            old(deserializer).wf(),
        ensures
            final(deserializer).wf(),
            match r {
                Ok(sender) => {
                    &&& old(deserializer).noted(final(deserializer), transported.port, Ok(()))
                    &&& sender.wf()
                    &&& sender@ == (QueueView::<T> {
                        entries: Seq::empty(),
                        capacity: Buffer::spec_size() as nat,
                        senders: 1,
                        closed_signal: if transported.closed {
                            Some(ClosedReason::Closed)
                        } else {
                            None
                        },
                        send_error: None,
                        closed: transported.closed,
                    })
                },
                Err(err) => old(deserializer).noted(
                    final(deserializer),
                    transported.port,
                    Err(err),
                ),
            },
    {
        match deserializer.accept(transported.port) {
            Ok(_) => Ok(
                Sender {
                    queue: ReceiverInner::new(Buffer::size(), transported.closed),
                    _codec: PhantomData,
                    _buffer: PhantomData,
                },
            ),
            Err(err) => Err(err),
        }
    }
}

/// What is sent through a sender before its port is there is passed on
/// when the port is, all of it and in the order in which it was sent.
///
/// The queue is empty and open at the start and has room for the values.
pub proof fn lemma_sent_before_connected<T>(start: QueueView<T>, values: Seq<T>)
    requires
        start.entries.len() == 0,
        start.senders > 0,
        start.closed_signal is None,
        start.send_error is None,
        values.len() <= start.capacity,
    ensures
        forall|i: int|
            0 <= i < values.len() ==> (#[trigger] start.with_values(values.take(i))).refusal(
                values[i],
            ) is None,
        start.with_values(values).leading_values() == values,
        start.with_values(values).entries.len() == values.len(),
{
    assert forall|i: int| 0 <= i < values.len() implies (#[trigger] start.with_values(
        values.take(i),
    )).refusal(values[i]) is None by {
        crate::rch::mpsc::receiver::lemma_sent_values_queue_up(start, values.take(i));
    }
    crate::rch::mpsc::receiver::lemma_sent_values_queue_up(start, values);
    crate::rch::mpsc::receiver::lemma_values_lead(values);
    assert(start.with_values(values).entries =~= crate::rch::mpsc::receiver::values_as_entries(
        values,
    ));
}

} // verus!
