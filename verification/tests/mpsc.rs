use remoc::chmux;
use remoc::rch::base;
use remoc::rch::base::{DeserializeError, PortDeserializer, PortSerializer, SerializeError};
use remoc::rch::buffer::{Custom, DefaultSize};
use remoc::rch::mpsc::receiver::{
    Accepted, Arrival, Context, Feed, Fetch, Forward, Released, TransportedReceiver, TrySendError,
};
use remoc::rch::mpsc::sender::TransportedSender;
use remoc::rch::mpsc::{Receiver, RecvError, Sender, TryRecvError};
use remoc::rch::{ClosedReason, Poll, RemoteSendError};
use remoc::chmux::PortRegistry;
use remoc::codec::DefaultCodec;

fn lost_port() -> RecvError {
    RecvError::RemoteReceive(base::RecvError::Receive(chmux::RecvError::ChMux))
}

#[test]
fn values_arrive_in_order_then_closed() {
    let mut rx: Receiver<u32> = Receiver::new(4, false);
    assert_eq!(rx.try_recv(), Err(TryRecvError::Empty));
    assert!(rx.try_send(7).is_ok());
    assert!(rx.try_send(9).is_ok());
    rx.detach_sender();
    assert_eq!(rx.try_recv(), Ok(7));
    assert_eq!(rx.try_recv(), Ok(9));
    assert_eq!(rx.try_recv(), Err(TryRecvError::Closed));
}

#[test]
fn recv_yields_all_sent_values_then_none() {
    let n = 50u32;
    let mut rx: Receiver<u32> = Receiver::new(64, false);
    for i in 0..n {
        assert_eq!(rx.try_send(i * 3), Ok(()));
    }
    rx.detach_sender();
    for i in 0..n {
        assert!(rx.is_ready());
        assert_eq!(rx.recv(), Ok(Some(i * 3)));
    }
    assert!(rx.is_ready());
    assert_eq!(rx.recv(), Ok(None));
    assert_eq!(rx.recv(), Ok(None));
}

#[test]
fn failure_after_some_values_comes_last() {
    // Five values were on their way; two arrived before the port was lost.
    let mut rx: Receiver<String> = Receiver::new(8, false);
    assert_eq!(rx.port_received(Ok(Some("a".to_string()))), Feed::More);
    assert_eq!(rx.port_received(Ok(Some("b".to_string()))), Feed::More);
    assert_eq!(
        rx.port_received(Err(base::RecvError::Receive(chmux::RecvError::ChMux))),
        Feed::Ended
    );
    assert_eq!(rx.recv(), Ok(Some("a".to_string())));
    assert_eq!(rx.recv(), Ok(Some("b".to_string())));
    assert_eq!(rx.recv(), Err(lost_port()));
    assert_eq!(rx.recv(), Ok(None));
}

#[test]
fn final_error_is_held_back_while_another_sender_delivers() {
    let mut rx: Receiver<u32> = Receiver::new(8, false);
    rx.attach_sender();
    assert_eq!(rx.deliver(Err(lost_port())), Ok(()));
    rx.detach_sender();
    assert_eq!(rx.try_send(1), Ok(()));
    assert_eq!(rx.try_send(2), Ok(()));
    assert_eq!(rx.error(), &None);
    assert_eq!(rx.try_recv(), Ok(1));
    assert_eq!(rx.error(), &Some(lost_port()));
    assert_eq!(rx.try_recv(), Ok(2));
    assert_eq!(rx.try_recv(), Err(TryRecvError::Empty));
    assert_eq!(rx.poll_recv(), Poll::Pending);
    assert!(!rx.is_ready());
    rx.detach_sender();
    assert!(rx.is_ready());
    assert_eq!(
        rx.try_recv(),
        Err(TryRecvError::RemoteReceive(base::RecvError::Receive(chmux::RecvError::ChMux)))
    );
    assert_eq!(rx.error(), &None);
    assert_eq!(rx.try_recv(), Err(TryRecvError::Closed));
}

#[test]
fn only_the_first_final_error_is_kept() {
    let mut rx: Receiver<u32> = Receiver::new(8, false);
    let first = RecvError::RemoteConnect(chmux::ConnectError::Rejected);
    let second = RecvError::RemoteListen(chmux::ListenerError::MultiplexerError);
    assert_eq!(rx.deliver(Err(first)), Ok(()));
    assert_eq!(rx.deliver(Err(second)), Ok(()));
    assert_eq!(rx.try_recv(), Err(TryRecvError::Empty));
    assert_eq!(rx.error(), &Some(first));
    assert_eq!(rx.take_error(), Some(first));
    assert_eq!(rx.take_error(), None);
    rx.detach_sender();
    assert_eq!(rx.try_recv(), Err(TryRecvError::Closed));
}

#[test]
fn error_that_is_not_final_is_reported_at_once() {
    let mut rx: Receiver<u32> = Receiver::new(8, false);
    let bad = RecvError::RemoteReceive(base::RecvError::Deserialize);
    assert_eq!(rx.deliver(Err(bad)), Ok(()));
    assert_eq!(rx.try_send(5), Ok(()));
    assert_eq!(rx.poll_recv(), Poll::Ready(Err(bad)));
    assert_eq!(rx.error(), &None);
    assert_eq!(rx.poll_recv(), Poll::Ready(Ok(Some(5))));
    assert_eq!(rx.poll_recv(), Poll::Pending);
    rx.detach_sender();
    assert_eq!(rx.poll_recv(), Poll::Ready(Ok(None)));
}

#[test]
fn empty_while_a_sender_exists_closed_after() {
    let mut rx: Receiver<u8> = Receiver::new(1, false);
    rx.attach_sender();
    assert_eq!(rx.try_recv(), Err(TryRecvError::Empty));
    rx.detach_sender();
    assert_eq!(rx.try_recv(), Err(TryRecvError::Empty));
    assert_eq!(rx.try_send(4), Ok(()));
    rx.detach_sender();
    assert_eq!(rx.try_recv(), Ok(4));
    assert_eq!(rx.try_recv(), Err(TryRecvError::Closed));
}

#[test]
fn blocking_recv_on_a_thread() {
    let mut rx: Receiver<u32> = Receiver::new(2, false);
    assert_eq!(rx.try_send(11), Ok(()));
    assert!(rx.is_ready());
    assert_eq!(rx.blocking_recv(Context::Thread), Ok(Some(11)));
    rx.detach_sender();
    assert_eq!(rx.blocking_recv(Context::Thread), Ok(None));
}

#[test]
fn full_queue_and_closed_receiver_give_the_value_back() {
    let mut rx: Receiver<u32> = Receiver::new(2, false);
    assert_eq!(rx.try_send(1), Ok(()));
    assert_eq!(rx.try_send(2), Ok(()));
    assert_eq!(rx.try_send(3), Err(TrySendError::Full(3)));
    assert_eq!(rx.deliver(Ok(3)), Err(Ok(3)));
    rx.close();
    assert_eq!(rx.try_recv(), Ok(1));
    assert_eq!(rx.try_send(4), Err(TrySendError::Closed(4)));
    // what was under way still arrives
    assert_eq!(rx.deliver(Ok(5)), Ok(()));
    assert_eq!(rx.try_recv(), Ok(2));
    assert_eq!(rx.try_recv(), Ok(5));
    rx.detach_sender();
    assert_eq!(rx.try_send(6), Err(TrySendError::Closed(6)));
    assert_eq!(rx.deliver(Ok(6)), Err(Ok(6)));
}

#[test]
fn release_tells_senders_unless_closed() {
    let rx: Receiver<u32> = Receiver::new(2, false);
    match rx.release() {
        Released::Abandoned { inner } => {
            assert_eq!(inner.closed_signal(), Some(ClosedReason::Dropped));
            assert_eq!(inner.send_error(), None);
            assert_eq!(inner.len(), 0);
        }
        Released::Successor { .. } => panic!("no successor was registered"),
    }
    let mut rx: Receiver<u32> = Receiver::new(2, false);
    rx.close();
    match rx.release() {
        Released::Abandoned { inner } => {
            assert_eq!(inner.closed_signal(), Some(ClosedReason::Closed))
        }
        Released::Successor { .. } => panic!("no successor was registered"),
    }
}

#[test]
fn serialize_reserves_a_port_and_registers_the_successor() {
    let mut serializer = PortSerializer::new(PortRegistry::new(2));
    let mut rx: Receiver<u32> = Receiver::new(4, false);
    assert_eq!(rx.try_send(1), Ok(()));
    let transported = rx.serialize(&mut serializer).unwrap();
    assert_eq!(transported.port, 0);
    assert!(!transported.closed);
    rx.close();
    let again = rx.serialize(&mut serializer).unwrap();
    assert_eq!(again.port, 1);
    assert!(again.closed);
    assert_eq!(rx.serialize(&mut serializer).err(), Some(SerializeError::PortsExhausted));
    let (registry, requests) = serializer.finish();
    assert_eq!(requests, vec![0, 1]);
    assert_eq!(registry.max_ports(), 2);
    match rx.release() {
        Released::Successor { port, inner } => {
            assert_eq!(port, 1);
            assert_eq!(inner.len(), 1);
            assert_eq!(inner.closed_signal(), Some(ClosedReason::Closed));
        }
        Released::Abandoned { .. } => panic!("the queue goes to the successor"),
    }
}

#[test]
fn failed_serialize_leaves_nothing_pending() {
    let mut serializer = PortSerializer::new(PortRegistry::new(0));
    let mut rx: Receiver<u32> = Receiver::new(4, false);
    assert!(rx.serialize(&mut serializer).is_err());
    match rx.release() {
        Released::Abandoned { inner } => {
            assert_eq!(inner.closed_signal(), Some(ClosedReason::Dropped))
        }
        Released::Successor { .. } => panic!("nothing was registered"),
    }
}

#[test]
fn retyping_keeps_the_queue_and_forgets_the_successor() {
    let mut serializer = PortSerializer::new(PortRegistry::new(4));
    let mut rx: Receiver<u32> = Receiver::new(4, false);
    assert_eq!(rx.try_send(8), Ok(()));
    assert_eq!(rx.deliver(Err(lost_port())), Ok(()));
    assert_eq!(rx.try_send(9), Ok(()));
    rx.serialize(&mut serializer).unwrap();
    let rx: Receiver<u32, DefaultCodec, Custom<16>> = rx.set_buffer();
    let mut rx: Receiver<u32, u8, Custom<16>> = rx.set_codec();
    assert_eq!(rx.try_recv(), Ok(8));
    assert_eq!(rx.try_recv(), Ok(9));
    assert_eq!(rx.error(), &Some(lost_port()));
    match rx.release() {
        Released::Abandoned { .. } => {}
        Released::Successor { .. } => panic!("the successor was forgotten"),
    }
}

#[test]
fn deserialize_builds_a_fresh_queue_of_the_named_size() {
    let mut deserializer = PortDeserializer::new();
    let transported: TransportedReceiver<u32, DefaultCodec> =
        TransportedReceiver::from_fields(7, None);
    assert!(!transported.closed);
    let mut rx: Receiver<u32, DefaultCodec, Custom<3>> =
        Receiver::deserialize(transported, &mut deserializer).unwrap();
    assert_eq!(rx.deliver(Ok(1)), Ok(()));
    assert_eq!(rx.deliver(Ok(2)), Ok(()));
    assert_eq!(rx.deliver(Ok(3)), Ok(()));
    assert_eq!(rx.deliver(Ok(4)), Err(Ok(4)));
    assert_eq!(rx.try_recv(), Ok(1));

    let closed: TransportedReceiver<u32, DefaultCodec> =
        TransportedReceiver::from_fields(8, Some(true));
    assert!(closed.closed);
    let rx: Receiver<u32, DefaultCodec, DefaultSize> =
        Receiver::deserialize(closed, &mut deserializer).unwrap();
    match rx.release() {
        Released::Abandoned { inner } => {
            assert_eq!(inner.closed_signal(), Some(ClosedReason::Closed))
        }
        Released::Successor { .. } => panic!("nothing was registered"),
    }

    let twice: TransportedReceiver<u32, DefaultCodec> =
        TransportedReceiver::from_fields(7, Some(false));
    let r: Result<Receiver<u32, DefaultCodec, DefaultSize>, DeserializeError> =
        Receiver::deserialize(twice, &mut deserializer);
    assert_eq!(r.err(), Some(DeserializeError::DuplicatePort(7)));
    assert_eq!(deserializer.finish(), vec![7, 8]);
}

#[test]
fn failed_accept_goes_into_the_queue() {
    let mut rx: Receiver<u32> = Receiver::new(2, false);
    assert_eq!(rx.accepted(Ok(())), Accepted::Receiving);
    assert_eq!(rx.try_recv(), Err(TryRecvError::Empty));
    assert_eq!(rx.accepted(Err(chmux::ListenerError::LocalPortsExhausted)), Accepted::Failed);
    assert_eq!(
        rx.try_recv(),
        Err(TryRecvError::RemoteListen(chmux::ListenerError::LocalPortsExhausted))
    );
    assert_eq!(rx.try_recv(), Err(TryRecvError::Closed));

    let mut full: Receiver<u32> = Receiver::new(1, false);
    assert_eq!(full.deliver(Ok(1)), Ok(()));
    assert_eq!(full.accepted(Err(chmux::ListenerError::MultiplexerError)), Accepted::Busy);
    assert_eq!(full.port_received(Ok(Some(2))), Feed::Busy);
    assert_eq!(full.try_recv(), Ok(1));
    assert_eq!(full.port_received(Err(base::RecvError::Deserialize)), Feed::More);
    assert_eq!(full.try_recv(), Err(TryRecvError::RemoteReceive(base::RecvError::Deserialize)));
    assert_eq!(full.port_received(Ok(None)), Feed::Ended);
    assert_eq!(full.try_recv(), Err(TryRecvError::Closed));
}

#[test]
fn forwarding_passes_values_on_in_order() {
    let mut serializer = PortSerializer::new(PortRegistry::new(4));
    let mut rx: Receiver<u32> = Receiver::new(8, false);
    assert_eq!(rx.try_send(1), Ok(()));
    assert_eq!(rx.try_send(2), Ok(()));
    rx.serialize(&mut serializer).unwrap();
    assert_eq!(rx.try_send(3), Ok(()));
    let mut inner = match rx.release() {
        Released::Successor { port, inner } => {
            assert_eq!(port, 0);
            inner
        }
        Released::Abandoned { .. } => panic!("the queue goes to the successor"),
    };
    assert!(inner.connected(Ok(())));
    assert_eq!(inner.forward(), Forward::Send(1));
    let (sent, then) = inner.forward_all();
    assert_eq!(sent, vec![2, 3]);
    assert_eq!(then, Forward::Wait);
    assert_eq!(inner.send_error(), None);
}

#[test]
fn forwarding_stops_at_an_error_and_tells_the_senders() {
    let mut rx: Receiver<u32> = Receiver::new(8, false);
    assert_eq!(rx.try_send(1), Ok(()));
    assert_eq!(rx.deliver(Err(lost_port())), Ok(()));
    assert_eq!(rx.try_send(2), Ok(()));
    rx.detach_sender();
    let mut inner = match rx.release() {
        Released::Abandoned { inner } => inner,
        Released::Successor { .. } => panic!("nothing was registered"),
    };
    let (sent, then) = inner.forward_all();
    assert_eq!(sent, vec![1]);
    assert_eq!(then, Forward::Stop);
    assert_eq!(inner.send_error(), Some(RemoteSendError::Forward));
    assert_eq!(inner.len(), 1);
    let (sent, then) = inner.forward_all();
    assert_eq!(sent, vec![2]);
    assert_eq!(then, Forward::Done);
}

#[test]
fn failed_connect_is_told_to_the_senders() {
    let mut rx: Receiver<u32> = Receiver::new(8, false);
    assert_eq!(rx.try_send(1), Ok(()));
    let mut serializer = PortSerializer::new(PortRegistry::new(1));
    rx.serialize(&mut serializer).unwrap();
    let mut inner = match rx.release() {
        Released::Successor { inner, .. } => inner,
        Released::Abandoned { .. } => panic!("the queue goes to the successor"),
    };
    assert!(!inner.connected(Err(chmux::ConnectError::Rejected)));
    assert_eq!(
        inner.send_error(),
        Some(RemoteSendError::Connect(chmux::ConnectError::Rejected))
    );
    // a sender that still holds the queue gets its value back with the reason
    assert_eq!(
        inner.try_send(2),
        Err(TrySendError::RemoteSend(RemoteSendError::Connect(chmux::ConnectError::Rejected), 2))
    );
    inner.detach_sender();
    assert_eq!(inner.deliver(Ok(3)), Err(Ok(3)));
}

#[test]
fn sender_sent_before_its_port_is_connected_loses_nothing() {
    // The near side keeps the receiver and sends the sender in a message:
    // a port number is reserved and travels in the sender's place.
    let mut near: Receiver<String, DefaultCodec, Custom<8>> = Receiver::new(8, false);
    let mut serializer = PortSerializer::new(PortRegistry::new(4));
    let port = serializer.connect().unwrap();
    let (_, requests) = serializer.finish();
    assert_eq!(requests, vec![port]);

    // The far side rebuilds the sender at once and uses it before the
    // port is there.
    let mut deserializer = PortDeserializer::new();
    let mut sender: Sender<String, DefaultCodec, Custom<8>> =
        Sender::deserialize(TransportedSender::from_fields(port, None), &mut deserializer)
            .unwrap();
    assert_eq!(deserializer.finish(), vec![port]);
    assert_eq!(sender.try_send("one".to_string()), Ok(()));
    assert_eq!(sender.try_send("two".to_string()), Ok(()));
    assert_eq!(near.try_recv(), Err(TryRecvError::Empty));

    // Both handshakes complete: what waited is passed on, in order.
    assert!(sender.accepted(Ok(())));
    assert_eq!(near.accepted(Ok(())), Accepted::Receiving);
    let (sent, then) = sender.forward_all();
    assert_eq!(sent, vec!["one".to_string(), "two".to_string()]);
    assert_eq!(then, Forward::Wait);
    for value in sent {
        assert_eq!(near.port_received(Ok(Some(value))), Feed::More);
    }
    assert_eq!(near.try_recv(), Ok("one".to_string()));
    assert_eq!(near.try_recv(), Ok("two".to_string()));
    assert_eq!(near.try_recv(), Err(TryRecvError::Empty));

    // The sender works on, and its end is seen behind its last value.
    assert_eq!(sender.try_send("three".to_string()), Ok(()));
    let mut queue = sender.release();
    let (sent, then) = queue.forward_all();
    assert_eq!(sent, vec!["three".to_string()]);
    assert_eq!(then, Forward::Done);
    for value in sent {
        assert_eq!(near.port_received(Ok(Some(value))), Feed::More);
    }
    assert_eq!(near.port_received(Ok(None)), Feed::Ended);
    assert_eq!(near.try_recv(), Ok("three".to_string()));
    assert_eq!(near.try_recv(), Err(TryRecvError::Closed));
}

#[test]
fn sender_learns_of_a_failed_port_and_of_a_closed_receiver() {
    let mut deserializer = PortDeserializer::new();
    let mut sender: Sender<u32> =
        Sender::deserialize(TransportedSender::from_fields(2, None), &mut deserializer).unwrap();
    assert_eq!(sender.try_send(1), Ok(()));
    assert_eq!(sender.try_send(2), Ok(()));
    assert_eq!(sender.try_send(3), Err(TrySendError::Full(3)));
    assert!(!sender.accepted(Err(chmux::ListenerError::MultiplexerError)));
    let (sent, _) = sender.forward_all();
    assert_eq!(sent, vec![1, 2]);
    assert_eq!(
        sender.try_send(4),
        Err(TrySendError::RemoteSend(
            RemoteSendError::Listen(chmux::ListenerError::MultiplexerError),
            4
        ))
    );

    let mut sender: Sender<u32> =
        Sender::deserialize(TransportedSender::from_fields(3, Some(true)), &mut deserializer)
            .unwrap();
    assert_eq!(sender.try_send(1), Err(TrySendError::Closed(1)));
    let twice: Result<Sender<u32>, DeserializeError> =
        Sender::deserialize(TransportedSender::from_fields(3, None), &mut deserializer);
    assert_eq!(twice.err(), Some(DeserializeError::DuplicatePort(3)));

    let mut sender: Sender<u32> =
        Sender::deserialize(TransportedSender::from_fields(4, None), &mut deserializer).unwrap();
    assert_eq!(sender.try_send(1), Ok(()));
    sender.closed(ClosedReason::Dropped);
    assert_eq!(sender.try_send(2), Err(TrySendError::Closed(2)));
}

#[test]
fn errors_say_whether_they_are_final() {
    assert!(RecvError::RemoteConnect(chmux::ConnectError::ChMux).is_final());
    assert!(RecvError::RemoteListen(chmux::ListenerError::MultiplexerError).is_final());
    assert!(lost_port().is_final());
    assert!(!RecvError::RemoteReceive(base::RecvError::Deserialize).is_final());
    assert!(!RecvError::RemoteReceive(base::RecvError::MissingPorts).is_final());
    assert!(TryRecvError::Closed.is_final());
    assert!(!TryRecvError::Empty.is_final());
    assert!(TryRecvError::RemoteConnect(chmux::ConnectError::Rejected).is_final());
    assert!(TryRecvError::RemoteListen(chmux::ListenerError::LocalPortsExhausted).is_final());
    assert!(TryRecvError::RemoteReceive(base::RecvError::Receive(chmux::RecvError::ChMux))
        .is_final());
    assert!(!TryRecvError::RemoteReceive(base::RecvError::Deserialize).is_final());
    assert_eq!(
        TryRecvError::from(RecvError::RemoteConnect(chmux::ConnectError::Rejected)),
        TryRecvError::RemoteConnect(chmux::ConnectError::Rejected)
    );
    assert_eq!(TryRecvError::from(lost_port()), TryRecvError::RemoteReceive(
        base::RecvError::Receive(chmux::RecvError::ChMux)
    ));
}

#[test]
fn errors_in_words() {
    assert_eq!(TryRecvError::Closed.to_string(), "channel is closed");
    assert_eq!(TryRecvError::Empty.to_string(), "channel is empty");
    assert_eq!(
        RecvError::RemoteConnect(chmux::ConnectError::Rejected).to_string(),
        "connect error: connection has been rejected by server"
    );
    assert_eq!(
        RecvError::RemoteListen(chmux::ListenerError::MultiplexerError).to_string(),
        "listen error: multiplexer error"
    );
    assert_eq!(lost_port().to_string(), "receive error: receive error: multiplexer error");
    assert_eq!(
        TryRecvError::RemoteReceive(base::RecvError::Deserialize).to_string(),
        "receive error: deserialization error"
    );
    assert_eq!(
        TryRecvError::RemoteListen(chmux::ListenerError::LocalPortsExhausted).to_string(),
        "listen error: all local ports are in use"
    );
    assert_eq!(
        TryRecvError::RemoteConnect(chmux::ConnectError::TooManyPendingConnectionRequests)
            .to_string(),
        "connect error: too many connection requests are pending"
    );
}

#[test]
fn queue_is_fed_from_a_channel() {
    let (tx, mut channel) = tokio::sync::mpsc::channel::<Result<u32, RecvError>>(4);
    let mut rx: Receiver<u32> = Receiver::new(2, false);
    assert_eq!(rx.fetch(&mut channel), Fetch::Nothing);
    assert_eq!(rx.try_recv(), Err(TryRecvError::Empty));
    tx.try_send(Ok(1)).unwrap();
    tx.try_send(Err(lost_port())).unwrap();
    tx.try_send(Ok(2)).unwrap();
    assert_eq!(rx.fetch(&mut channel), Fetch::Taken);
    assert_eq!(rx.fetch(&mut channel), Fetch::Taken);
    // the queue is full: the channel is not asked and keeps its entry
    assert_eq!(rx.fetch(&mut channel), Fetch::Busy);
    assert_eq!(rx.try_recv(), Ok(1));
    assert_eq!(rx.fetch(&mut channel), Fetch::Taken);
    assert_eq!(rx.try_recv(), Ok(2));
    assert_eq!(rx.error(), &Some(lost_port()));
    assert_eq!(rx.fetch(&mut channel), Fetch::Nothing);
    assert_eq!(rx.try_recv(), Err(TryRecvError::Empty));
    drop(tx);
    assert_eq!(rx.fetch(&mut channel), Fetch::Disconnected);
    assert_eq!(
        rx.try_recv(),
        Err(TryRecvError::RemoteReceive(base::RecvError::Receive(chmux::RecvError::ChMux)))
    );
    assert_eq!(rx.fetch(&mut channel), Fetch::Busy);
    assert_eq!(rx.try_recv(), Err(TryRecvError::Closed));
}

#[test]
fn queue_is_fed_from_a_channel_that_is_polled() {
    let (tx, mut channel) = tokio::sync::mpsc::channel::<Result<u32, RecvError>>(4);
    let mut rx: Receiver<u32> = Receiver::new(2, false);
    let mut cx = std::task::Context::from_waker(futures::task::noop_waker_ref());
    assert_eq!(rx.poll_fetch(&mut channel, &mut cx), Fetch::Nothing);
    tx.try_send(Ok(7)).unwrap();
    assert_eq!(rx.poll_fetch(&mut channel, &mut cx), Fetch::Taken);
    assert_eq!(rx.poll_recv(), Poll::Ready(Ok(Some(7))));
    assert_eq!(rx.poll_recv(), Poll::Pending);
    drop(tx);
    assert_eq!(rx.poll_fetch(&mut channel, &mut cx), Fetch::Disconnected);
    assert_eq!(rx.poll_recv(), Poll::Ready(Ok(None)));
}

#[test]
fn what_a_channel_gives_goes_into_the_queue() {
    let mut rx: Receiver<u32> = Receiver::new(2, false);
    assert_eq!(rx.arrived(Arrival::Nothing), Fetch::Nothing);
    assert_eq!(rx.arrived(Arrival::Entry(Ok(4))), Fetch::Taken);
    assert_eq!(rx.arrived(Arrival::Disconnected), Fetch::Disconnected);
    assert_eq!(rx.try_recv(), Ok(4));
    assert_eq!(rx.try_recv(), Err(TryRecvError::Closed));
}
