use remoc::rch::mpsc::distributor::Pump;
use remoc::rch::mpsc::{Receiver, TryRecvError};
use remoc::rch::ClosedReason;
use remoc::rch::mpsc::receiver::TrySendError;

#[test]
fn each_value_goes_to_one_outlet_in_turn() {
    let rx: Receiver<u32> = Receiver::new(16, false);
    let mut d = rx.distribute(true);
    let a = d.subscribe(4).unwrap();
    let b = d.subscribe(4).unwrap();
    assert_eq!((a, b), (0, 1));
    for v in 1..=4 {
        assert_eq!(d.upstream().try_send(v), Ok(()));
    }
    assert_eq!(d.step(), Pump::Delivered(0));
    assert_eq!(d.step(), Pump::Delivered(1));
    assert_eq!(d.step(), Pump::Delivered(0));
    assert_eq!(d.step(), Pump::Delivered(1));
    assert_eq!(d.step(), Pump::Idle);
    assert_eq!(d.try_recv(a), Ok(1));
    assert_eq!(d.try_recv(a), Ok(3));
    assert_eq!(d.try_recv(a), Err(TryRecvError::Empty));
    assert_eq!(d.try_recv(b), Ok(2));
    assert_eq!(d.try_recv(b), Ok(4));
    assert_eq!(d.try_recv(b), Err(TryRecvError::Empty));
}

#[test]
fn full_and_closed_outlets_are_passed_over() {
    let rx: Receiver<u32> = Receiver::new(16, false);
    let mut d = rx.distribute(true);
    let a = d.subscribe(1).unwrap();
    let b = d.subscribe(4).unwrap();
    let c = d.subscribe(4).unwrap();
    assert!(d.unsubscribe(c));
    assert!(!d.unsubscribe(c));
    assert!(!d.unsubscribe(9));
    for v in 1..=4 {
        assert_eq!(d.upstream().try_send(v), Ok(()));
    }
    assert_eq!(d.step(), Pump::Delivered(0));
    assert_eq!(d.step(), Pump::Delivered(1));
    assert_eq!(d.step(), Pump::Delivered(1));
    assert_eq!(d.step(), Pump::Delivered(1));
    assert_eq!(d.try_recv(a), Ok(1));
    assert_eq!(d.try_recv(b), Ok(2));
    assert_eq!(d.try_recv(b), Ok(3));
    assert_eq!(d.try_recv(b), Ok(4));
    assert_eq!(d.try_recv(c), Err(TryRecvError::Closed));
    assert_eq!(d.try_recv(7), Err(TryRecvError::Closed));
}

#[test]
fn without_waiting_it_ends_when_the_last_outlet_closes() {
    let rx: Receiver<u32> = Receiver::new(16, false);
    let mut d = rx.distribute(false);
    let a = d.subscribe(2).unwrap();
    assert_eq!(d.upstream().try_send(1), Ok(()));
    assert_eq!(d.step(), Pump::Delivered(0));
    assert!(d.unsubscribe(a));
    assert_eq!(d.upstream().try_send(2), Ok(()));
    assert_eq!(d.step(), Pump::Terminated);
    // upstream observes closure
    assert_eq!(d.upstream().try_send(3), Err(TrySendError::Closed(3)));
    assert_eq!(d.subscribe(2), None);
    assert_eq!(d.step(), Pump::Terminated);
    // what had been handed on can still be taken
    assert_eq!(d.try_recv(a), Ok(1));
    assert_eq!(d.try_recv(a), Err(TryRecvError::Closed));
}

#[test]
fn with_waiting_it_stays_and_goes_on_when_somebody_listens() {
    let rx: Receiver<u32> = Receiver::new(16, false);
    let mut d = rx.distribute(true);
    let a = d.subscribe(2).unwrap();
    assert!(d.unsubscribe(a));
    assert_eq!(d.upstream().try_send(1), Ok(()));
    assert_eq!(d.step(), Pump::Idle);
    assert_eq!(d.step(), Pump::Idle);
    // nothing was taken and the senders are not turned away
    assert_eq!(d.upstream().try_send(2), Ok(()));
    let b = d.subscribe(2).unwrap();
    assert_eq!(b, 1);
    assert_eq!(d.step(), Pump::Delivered(1));
    assert_eq!(d.step(), Pump::Delivered(1));
    assert_eq!(d.try_recv(b), Ok(1));
    assert_eq!(d.try_recv(b), Ok(2));
}

#[test]
fn end_of_the_receiver_ends_the_distributor() {
    let rx: Receiver<u32> = Receiver::new(16, false);
    let mut d = rx.distribute(true);
    let a = d.subscribe(2).unwrap();
    assert_eq!(d.upstream().try_send(1), Ok(()));
    d.upstream().detach_sender();
    assert_eq!(d.step(), Pump::Delivered(0));
    assert_eq!(d.step(), Pump::Terminated);
    assert_eq!(d.try_recv(a), Ok(1));
    assert_eq!(d.try_recv(a), Err(TryRecvError::Closed));
    match d.upstream().try_send(5) {
        Err(TrySendError::Closed(5)) => {}
        other => panic!("unexpected {:?}", other),
    }
    let _ = ClosedReason::Dropped;
}
