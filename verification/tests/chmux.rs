use remoc::chmux::mux::SendError;
use remoc::chmux::{Cfg, ChMux, ChMuxError, ConnectError, ListenerError, Msg, PortRegistry, PortState, RecvError};
use remoc::connect::{Connect, IoError};
use remoc::rch::Poll;
use bytes::Bytes;

type Mux = ChMux<IoError, IoError>;

struct End {
    mux: Mux,
    ports: PortRegistry,
    unread: Vec<u8>,
}

fn end(cfg: Cfg) -> End {
    assert!(cfg.check());
    End { mux: ChMux::new(cfg), ports: PortRegistry::new(cfg.max_ports), unread: Vec::new() }
}

/// Moves every frame that waits at `from` over a byte transport to `to`.
fn pump(from: &mut End, to: &mut End) -> usize {
    let framing = Connect::io(&from.mux.cfg());
    let mut frames = 0;
    while let Some(frame) = from.mux.next_frame() {
        assert!(frame.len() <= from.mux.cfg().max_frame_length as usize);
        framing.sink.encode(&frame, &mut to.unread).unwrap();
    }
    while let Some((frame, taken)) = framing.stream.decode(&to.unread).unwrap() {
        to.unread.drain(..taken);
        to.mux.handle_frame(&Bytes::from(frame), &mut to.ports);
        frames += 1;
    }
    frames
}

fn small() -> Cfg {
    Cfg { max_frame_length: 64, max_ports: 4, max_pending_connects: 2, receive_buffer: 32 }
}

#[test]
fn messages_have_their_bytes() {
    let cases: Vec<(Msg, Vec<u8>)> = vec![
        (Msg::Open { client_port: 1, window: 0x0102 }, vec![0, 1, 0, 0, 0, 2, 1, 0, 0]),
        (
            Msg::Accepted { client_port: 1, server_port: 0x01000000, window: 5 },
            vec![1, 1, 0, 0, 0, 0, 0, 0, 1, 5, 0, 0, 0],
        ),
        (Msg::Rejected { client_port: 0xffff_ffff }, vec![2, 255, 255, 255, 255]),
        (Msg::Data { port: 3, payload: vec![9, 8, 7] }, vec![3, 3, 0, 0, 0, 9, 8, 7]),
        (Msg::Data { port: 0, payload: vec![] }, vec![3, 0, 0, 0, 0]),
        (Msg::Credit { port: 2, bytes: 300 }, vec![4, 2, 0, 0, 0, 44, 1, 0, 0]),
        (Msg::Finish { port: 7 }, vec![5, 7, 0, 0, 0]),
        (Msg::Close { port: 7 }, vec![6, 7, 0, 0, 0]),
        (Msg::Goodbye, vec![7]),
    ];
    for (msg, bytes) in cases {
        assert_eq!(msg.encode(), bytes);
        assert_eq!(Msg::decode(&bytes), Some(msg));
    }
    assert_eq!(Msg::decode(&[]), None);
    assert_eq!(Msg::decode(&[8]), None);
    assert_eq!(Msg::decode(&[0, 1, 0, 0, 0]), None);
    assert_eq!(Msg::decode(&[7, 0]), None);
    assert_eq!(Msg::decode(&[5, 7, 0, 0, 0, 0]), None);
    assert_eq!(Msg::decode(&[3, 7, 0, 0]), None);
}

#[test]
fn one_value_from_the_server_then_the_end() {
    let mut client = end(Cfg::default());
    let mut server = end(Cfg::default());

    // the client opens the first channel; the server takes up one request
    let c = client.mux.connect(&mut client.ports).unwrap();
    assert_eq!(client.mux.poll_connect(c, &mut client.ports), Poll::Pending);
    assert_eq!(server.mux.accept(&mut server.ports), Poll::Pending);
    assert_eq!(pump(&mut client, &mut server), 1);
    let s = match server.mux.accept(&mut server.ports) {
        Poll::Ready(Ok(port)) => port,
        other => panic!("unexpected {:?}", other),
    };
    assert_eq!(server.mux.accept(&mut server.ports), Poll::Pending);
    assert_eq!(pump(&mut server, &mut client), 1);
    assert_eq!(client.mux.poll_connect(c, &mut client.ports), Poll::Ready(Ok(())));
    let opened = Connect::<IoError, IoError>::framed(
        &client.mux.cfg(),
        Connect::running(),
        Poll::Ready(Ok((c, c))),
    );
    assert!(matches!(opened, Ok((_, Poll::Ready(_)))));

    // the server sends one string and drops its sender
    assert_eq!(client.mux.recv(c), Poll::Pending);
    assert_eq!(server.mux.send(s, "Hi from server".to_string().into_bytes()), Ok(()));
    assert!(server.mux.finish(s, &mut server.ports));
    assert_eq!(pump(&mut server, &mut client), 2);

    // the client gets that one value and then the end
    match client.mux.recv(c) {
        Poll::Ready(Ok(Some(bytes))) => {
            assert_eq!(String::from_utf8(bytes).unwrap(), "Hi from server")
        }
        other => panic!("unexpected {:?}", other),
    }
    assert_eq!(client.mux.recv(c), Poll::Ready(Ok(None)));
    assert_eq!(client.mux.recv(c), Poll::Ready(Ok(None)));

    // every handle is dropped on both sides: at each, the one that opens
    // ports, the one that takes them up, and the two halves of the port
    for side in [&mut client, &mut server] {
        for _ in 0..4 {
            side.mux.retain();
        }
    }
    assert!(client.mux.finish(c, &mut client.ports));
    assert!(client.mux.close(c, &mut client.ports));
    assert!(server.mux.close(s, &mut server.ports));
    for side in [&mut client, &mut server] {
        for _ in 0..3 {
            side.mux.release();
        }
        assert!(matches!(side.mux.status(), None));
        side.mux.release();
    }
    pump(&mut client, &mut server);
    pump(&mut server, &mut client);
    assert_eq!(client.ports.state(c), PortState::Free);
    assert_eq!(server.ports.state(s), PortState::Free);
    assert!(matches!(client.mux.status(), Some(Ok(()))));
    assert!(matches!(server.mux.status(), Some(Ok(()))));
    client.mux.stream_closed();
    server.mux.stream_closed();
    assert!(matches!(client.mux.status(), Some(Ok(()))));
    assert!(matches!(server.mux.status(), Some(Ok(()))));
    assert_eq!(client.mux.next_frame(), None);
    assert_eq!(server.mux.next_frame(), None);
}

#[test]
fn frames_for_the_transport_hold_the_messages() {
    let mut a = end(small());
    let p = a.mux.connect(&mut a.ports).unwrap();
    let frame = a.mux.next_frame().unwrap();
    assert_eq!(&frame[..], &[0, 0, 0, 0, 0, 32, 0, 0, 0]);
    assert_eq!(Msg::decode(&frame), Some(Msg::Open { client_port: p, window: 32 }));
    assert_eq!(a.mux.next_frame(), None);
    let answer = Bytes::from(Msg::Accepted { client_port: p, server_port: 3, window: 8 }.encode());
    a.mux.handle_frame(&answer, &mut a.ports);
    assert_eq!(a.mux.poll_connect(p, &mut a.ports), Poll::Ready(Ok(())));
    assert_eq!(a.mux.send(p, vec![1, 2, 3]), Ok(()));
    assert_eq!(&a.mux.next_frame().unwrap()[..], &[3, 3, 0, 0, 0, 1, 2, 3]);
    assert_eq!(a.mux.send(p, vec![0; 6]), Err((SendError::NoCredit, vec![0; 6])));
}

#[test]
fn credit_holds_a_sender_back_until_room_is_made() {
    let mut a = end(small());
    let mut b = end(small());
    let pa = a.mux.connect(&mut a.ports).unwrap();
    pump(&mut a, &mut b);
    let pb = match b.mux.accept(&mut b.ports) {
        Poll::Ready(Ok(port)) => port,
        other => panic!("unexpected {:?}", other),
    };
    pump(&mut b, &mut a);
    assert_eq!(a.mux.send(pa, vec![1; 20]), Ok(()));
    assert_eq!(a.mux.send(pa, vec![2; 13]), Err((SendError::NoCredit, vec![2; 13])));
    assert_eq!(a.mux.send(pa, vec![2; 12]), Ok(()));
    assert_eq!(a.mux.send(pa, vec![3; 1]), Err((SendError::NoCredit, vec![3; 1])));
    assert_eq!(a.mux.send(pa, vec![]), Ok(()));
    assert_eq!(a.mux.send(pa, vec![0; 60]), Err((SendError::TooLong, vec![0; 60])));
    assert_eq!(a.mux.send(3, vec![0]), Err((SendError::Closed, vec![0])));
    assert_eq!(a.mux.send(9, vec![0]), Err((SendError::Closed, vec![0])));
    pump(&mut a, &mut b);
    assert_eq!(b.mux.recv(pb), Poll::Ready(Ok(Some(vec![1; 20]))));
    pump(&mut b, &mut a);
    assert_eq!(a.mux.send(pa, vec![4; 21]), Err((SendError::NoCredit, vec![4; 21])));
    assert_eq!(a.mux.send(pa, vec![4; 20]), Ok(()));
    pump(&mut a, &mut b);
    assert_eq!(b.mux.recv(pb), Poll::Ready(Ok(Some(vec![2; 12]))));
    assert_eq!(b.mux.recv(pb), Poll::Ready(Ok(Some(vec![]))));
    assert_eq!(b.mux.recv(pb), Poll::Ready(Ok(Some(vec![4; 20]))));
    assert_eq!(b.mux.recv(pb), Poll::Pending);
    assert!(matches!(a.mux.status(), None));
    assert!(matches!(b.mux.status(), None));
}

#[test]
fn one_full_port_does_not_hold_up_another() {
    let mut a = end(small());
    let mut b = end(small());
    let first = a.mux.connect(&mut a.ports).unwrap();
    let second = a.mux.connect(&mut a.ports).unwrap();
    assert_eq!(
        a.mux.connect(&mut a.ports),
        Err(ConnectError::TooManyPendingConnectionRequests)
    );
    pump(&mut a, &mut b);
    let far_first = match b.mux.accept(&mut b.ports) {
        Poll::Ready(Ok(port)) => port,
        other => panic!("unexpected {:?}", other),
    };
    let far_second = match b.mux.accept(&mut b.ports) {
        Poll::Ready(Ok(port)) => port,
        other => panic!("unexpected {:?}", other),
    };
    pump(&mut b, &mut a);
    assert_eq!(a.mux.send(first, vec![1; 32]), Ok(()));
    assert_eq!(a.mux.send(first, vec![1]), Err((SendError::NoCredit, vec![1])));
    assert_eq!(a.mux.send(second, vec![2; 5]), Ok(()));
    pump(&mut a, &mut b);
    assert_eq!(b.mux.recv(far_second), Poll::Ready(Ok(Some(vec![2; 5]))));
    assert_eq!(b.mux.recv(far_second), Poll::Pending);
    assert_eq!(b.mux.recv(far_first), Poll::Ready(Ok(Some(vec![1; 32]))));
}

#[test]
fn requests_are_refused_when_nothing_is_free() {
    let mut a = end(small());
    let mut b = end(Cfg { max_ports: 1, max_pending_connects: 1, ..small() });
    let first = a.mux.connect(&mut a.ports).unwrap();
    let second = a.mux.connect(&mut a.ports).unwrap();
    pump(&mut a, &mut b);
    // the second request found the queue full and was refused at once
    pump(&mut b, &mut a);
    assert_eq!(
        a.mux.poll_connect(second, &mut a.ports),
        Poll::Ready(Err(ConnectError::Rejected))
    );
    assert_eq!(a.ports.state(second), PortState::Free);
    assert_eq!(a.mux.poll_connect(second, &mut a.ports), Poll::Ready(Err(ConnectError::ChMux)));
    assert_eq!(a.mux.poll_connect(first, &mut a.ports), Poll::Pending);
    assert!(b.mux.reject());
    assert!(!b.mux.reject());
    pump(&mut b, &mut a);
    assert_eq!(
        a.mux.poll_connect(first, &mut a.ports),
        Poll::Ready(Err(ConnectError::Rejected))
    );
    // no port number left at the side that listens
    let third = a.mux.connect(&mut a.ports).unwrap();
    assert_eq!(b.ports.allocate(), Some(0));
    pump(&mut a, &mut b);
    assert_eq!(
        b.mux.accept(&mut b.ports),
        Poll::Ready(Err(ListenerError::LocalPortsExhausted))
    );
    pump(&mut b, &mut a);
    assert_eq!(
        a.mux.poll_connect(third, &mut a.ports),
        Poll::Ready(Err(ConnectError::Rejected))
    );
    // no port number left at the side that asks
    for _ in 0..4 {
        a.ports.allocate();
    }
    assert_eq!(a.mux.connect(&mut a.ports), Err(ConnectError::LocalPortsExhausted));
}

#[test]
fn a_port_number_comes_back_when_both_sides_are_done() {
    let mut a = end(small());
    let mut b = end(small());
    let pa = a.mux.connect(&mut a.ports).unwrap();
    pump(&mut a, &mut b);
    let pb = match b.mux.accept(&mut b.ports) {
        Poll::Ready(Ok(port)) => port,
        other => panic!("unexpected {:?}", other),
    };
    pump(&mut b, &mut a);
    assert!(a.mux.finish(pa, &mut a.ports));
    assert!(!a.mux.finish(pa, &mut a.ports));
    assert!(a.mux.close(pa, &mut a.ports));
    assert_eq!(
        a.ports.state(pa),
        PortState::Live { local_released: true, remote_released: false }
    );
    assert_eq!(a.mux.send(pa, vec![1]), Err((SendError::Closed, vec![1])));
    assert_eq!(a.mux.recv(pa), Poll::Ready(Ok(None)));
    pump(&mut a, &mut b);
    assert_eq!(
        b.ports.state(pb),
        PortState::Live { local_released: false, remote_released: true }
    );
    assert_eq!(b.mux.recv(pb), Poll::Ready(Ok(None)));
    assert_eq!(b.mux.send(pb, vec![1]), Err((SendError::Closed, vec![1])));
    assert!(b.mux.close(pb, &mut b.ports));
    assert!(b.mux.finish(pb, &mut b.ports));
    assert_eq!(b.ports.state(pb), PortState::Free);
    pump(&mut b, &mut a);
    assert_eq!(a.ports.state(pa), PortState::Free);
    assert!(!a.mux.close(pa, &mut a.ports));
    assert_eq!(a.mux.connect(&mut a.ports), Ok(pa));
}

#[test]
fn what_breaks_the_protocol_ends_the_multiplexer() {
    let broken: Vec<Vec<u8>> = vec![
        vec![9],
        Msg::Data { port: 0, payload: vec![1] }.encode(),
        Msg::Credit { port: 1, bytes: 1 }.encode(),
        Msg::Accepted { client_port: 0, server_port: 0, window: 1 }.encode(),
        Msg::Rejected { client_port: 7 }.encode(),
        Msg::Finish { port: 0 }.encode(),
        Msg::Close { port: 100 }.encode(),
    ];
    for frame in broken {
        let mut a = end(small());
        a.mux.handle_frame(&Bytes::from(frame), &mut a.ports);
        assert!(matches!(a.mux.status(), Some(Err(ChMuxError::Protocol))));
        assert_eq!(a.mux.connect(&mut a.ports), Err(ConnectError::ChMux));
        assert_eq!(
            a.mux.accept(&mut a.ports),
            Poll::Ready(Err(ListenerError::MultiplexerError))
        );
    }
    let mut a = end(small());
    a.mux.handle_frame(&Bytes::from(vec![3u8; 65]), &mut a.ports);
    assert!(matches!(a.mux.status(), Some(Err(ChMuxError::FrameTooLong))));
}

#[test]
fn more_than_the_window_breaks_the_protocol() {
    let mut a = end(small());
    let mut b = end(small());
    let pa = a.mux.connect(&mut a.ports).unwrap();
    pump(&mut a, &mut b);
    b.mux.accept(&mut b.ports);
    pump(&mut b, &mut a);
    a.mux.handle(Msg::Data { port: pa, payload: vec![0; 32] }, &mut a.ports);
    assert!(matches!(a.mux.status(), None));
    a.mux.handle(Msg::Data { port: pa, payload: vec![0; 1] }, &mut a.ports);
    assert!(matches!(a.mux.status(), Some(Err(ChMuxError::Protocol))));
    // what had come in can still be received, then the failure shows
    assert_eq!(a.mux.recv(pa), Poll::Ready(Ok(Some(vec![0; 32]))));
    assert_eq!(a.mux.recv(pa), Poll::Ready(Err(RecvError::ChMux)));
    assert_eq!(a.mux.send(pa, vec![1]), Err((SendError::ChMux, vec![1])));
}

#[test]
fn transport_that_ends_early_or_fails_is_reported() {
    let mut a = end(small());
    a.mux.stream_closed();
    assert!(matches!(a.mux.status(), Some(Err(ChMuxError::StreamClosed))));
    a.mux.stream_failed(IoError { message: "late".to_string() });
    assert!(matches!(a.mux.status(), Some(Err(ChMuxError::StreamClosed))));

    let mut a = end(small());
    a.mux.sink_failed(IoError { message: "broken pipe".to_string() });
    match a.mux.status() {
        Some(Err(ChMuxError::SinkError(err))) => assert_eq!(err.message, "broken pipe"),
        _ => panic!("the sink failed"),
    }
    let mut a = end(small());
    a.mux.stream_failed(IoError { message: "reset".to_string() });
    let connection: Connect<IoError, IoError> =
        Connect::ended(Err(ChMuxError::StreamError(IoError { message: "reset".to_string() })));
    assert!(matches!(a.mux.status(), Some(Err(ChMuxError::StreamError(_)))));
    let r = Connect::<IoError, IoError>::framed::<u8, u8>(&a.mux.cfg(), connection, Poll::Pending);
    assert!(r.is_err());

    // a pending request learns of the end
    let mut a = end(small());
    let p = a.mux.connect(&mut a.ports).unwrap();
    a.mux.stream_closed();
    assert_eq!(a.mux.poll_connect(p, &mut a.ports), Poll::Ready(Err(ConnectError::ChMux)));
    assert_eq!(a.ports.state(p), PortState::Free);

    // goodbye from the other side makes the end of the transport a good end
    let mut a = end(small());
    a.mux.handle(Msg::Goodbye, &mut a.ports);
    assert!(matches!(a.mux.status(), None));
    a.mux.stream_closed();
    assert!(matches!(a.mux.status(), Some(Ok(()))));
}
