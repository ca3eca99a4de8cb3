use remoc::codec::DefaultCodec;
use remoc::rch::broadcast::{channel, BroadcastMsg, Receiver, SendError, Sender, TryRecvError};

#[test]
fn every_receiver_sees_every_value() {
    let (mut tx, rx1): (Sender<u32, DefaultCodec>, Receiver<u32, DefaultCodec, 4>) = channel(4);
    let rx2: Receiver<u32, DefaultCodec, 4> = tx.subscribe(4);
    assert_eq!(rx1.index(), 0);
    assert_eq!(rx2.index(), 1);
    for v in [10, 20, 30] {
        assert_eq!(tx.send(v), Ok(()));
    }
    for rx in [&rx1, &rx2] {
        assert_eq!(tx.try_recv(rx), Ok(10));
        assert_eq!(tx.try_recv(rx), Ok(20));
        assert_eq!(tx.try_recv(rx), Ok(30));
        assert_eq!(tx.try_recv(rx), Err(TryRecvError::Empty));
    }
}

#[test]
fn slow_receiver_gets_one_marker_and_goes_on_in_order() {
    let (mut tx, slow): (Sender<u32, DefaultCodec>, Receiver<u32, DefaultCodec, 2>) = channel(2);
    let fast: Receiver<u32, DefaultCodec, 2> = tx.subscribe(16);
    for v in 1..=5 {
        assert_eq!(tx.send(v), Ok(()));
    }
    // the slow one has 1 and 2, missed 3, 4 and 5
    assert_eq!(tx.try_recv(&slow), Ok(1));
    assert_eq!(tx.try_recv(&slow), Ok(2));
    assert_eq!(tx.try_recv(&slow), Err(TryRecvError::Empty));
    assert_eq!(tx.send(6), Ok(()));
    // 7 finds the buffer full behind a value: a new run of misses
    assert_eq!(tx.send(7), Ok(()));
    assert_eq!(tx.try_recv(&slow), Err(TryRecvError::Lagged));
    assert_eq!(tx.try_recv(&slow), Ok(6));
    assert_eq!(tx.try_recv(&slow), Err(TryRecvError::Empty));
    assert_eq!(tx.send(8), Ok(()));
    assert_eq!(tx.try_recv(&slow), Err(TryRecvError::Lagged));
    assert_eq!(tx.try_recv(&slow), Ok(8));
    assert_eq!(tx.try_recv(&slow), Err(TryRecvError::Empty));
    assert_eq!(tx.send(9), Ok(()));
    assert_eq!(tx.try_recv(&slow), Ok(9));
    // the fast one missed nothing and saw no marker
    for v in 1..=9 {
        assert_eq!(tx.try_recv(&fast), Ok(v));
    }
    assert_eq!(tx.try_recv(&fast), Err(TryRecvError::Empty));
}

#[test]
fn one_marker_tells_of_all_that_was_missed_around_it() {
    let (mut tx, rx): (Sender<u8, DefaultCodec>, Receiver<u8, DefaultCodec, 1>) = channel(1);
    assert_eq!(tx.send(1), Ok(()));
    assert_eq!(tx.send(2), Ok(()));
    assert_eq!(tx.send(3), Ok(()));
    assert_eq!(tx.try_recv(&rx), Ok(1));
    // room for the marker alone: 4 is missed, and so is 5 behind it
    assert_eq!(tx.send(4), Ok(()));
    assert_eq!(tx.send(5), Ok(()));
    assert_eq!(tx.try_recv(&rx), Err(TryRecvError::Lagged));
    assert_eq!(tx.try_recv(&rx), Err(TryRecvError::Empty));
    assert_eq!(tx.send(6), Ok(()));
    assert_eq!(tx.try_recv(&rx), Ok(6));
    assert_eq!(tx.try_recv(&rx), Err(TryRecvError::Empty));
    assert_eq!(tx.send(7), Ok(()));
    assert_eq!(tx.send(8), Ok(()));
    assert_eq!(tx.try_recv(&rx), Ok(7));
    assert_eq!(tx.send(9), Ok(()));
    assert_eq!(tx.try_recv(&rx), Err(TryRecvError::Lagged));
    assert_eq!(tx.send(10), Ok(()));
    assert_eq!(tx.try_recv(&rx), Ok(10));
}

#[test]
fn send_without_listeners_gives_the_value_back() {
    let mut tx: Sender<u32, DefaultCodec> = Sender::new();
    assert_eq!(tx.send(1), Err(SendError::Closed(1)));
    let rx: Receiver<u32, DefaultCodec, 2> = tx.subscribe(2);
    let gone: Receiver<u32, DefaultCodec, 2> = tx.subscribe(2);
    assert_eq!(tx.send(2), Ok(()));
    assert!(tx.unsubscribe(gone));
    assert_eq!(tx.send(3), Ok(()));
    assert_eq!(tx.try_recv(&rx), Ok(2));
    assert_eq!(tx.try_recv(&rx), Ok(3));
    tx.close();
    assert_eq!(tx.send(4), Err(SendError::Closed(4)));
    assert_eq!(tx.try_recv(&rx), Err(TryRecvError::Closed));
}

#[test]
fn closed_sender_is_seen_after_what_waits() {
    let (mut tx, rx): (Sender<u32, DefaultCodec>, Receiver<u32, DefaultCodec, 2>) = channel(2);
    assert_eq!(tx.send(1), Ok(()));
    tx.close();
    assert_eq!(tx.try_recv(&rx), Ok(1));
    assert_eq!(tx.try_recv(&rx), Err(TryRecvError::Closed));
    assert!(tx.unsubscribe(rx));
}

#[test]
fn transport_message_has_two_shapes() {
    let value = BroadcastMsg::Value(5u8);
    assert_ne!(value, BroadcastMsg::Lagged);
    assert_eq!(value, BroadcastMsg::Value(5u8));
}
