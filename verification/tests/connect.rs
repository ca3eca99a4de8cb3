use remoc::chmux::{Cfg, ChMuxError};
use remoc::connect::{Connect, ConnectError, IoError};
use remoc::rch::base;
use remoc::rch::Poll;
use remoc::chmux;
use remoc::text::Describe;

type Conn = Connect<IoError, IoError>;

fn io_error(words: &str) -> IoError {
    IoError { message: words.to_string() }
}

#[test]
fn default_settings_are_valid() {
    let cfg = Cfg::default();
    assert!(cfg.check());
    assert_eq!(cfg.max_frame_length(), 65536);
    assert!(!Cfg { max_frame_length: 15, ..cfg }.check());
    assert!(Cfg { max_frame_length: 16, ..cfg }.check());
    assert!(!Cfg { max_ports: 0, ..cfg }.check());
    assert!(Cfg { max_ports: 0x8000_0000, ..cfg }.check());
    assert!(!Cfg { max_ports: 0x8000_0001, ..cfg }.check());
    assert!(!Cfg { max_pending_connects: 0, ..cfg }.check());
    assert!(!Cfg { receive_buffer: 0, ..cfg }.check());
}

#[test]
fn channel_opens_while_the_connection_runs() {
    let cfg = Cfg::default();
    let r = Conn::framed(&cfg, Connect::running(), Poll::Ready(Ok((1u8, 2u16))));
    match r {
        Ok((connection, Poll::Ready((tx, rx)))) => {
            assert!(matches!(connection.poll(), Poll::Pending));
            assert_eq!((tx, rx), (1, 2));
        }
        _ => panic!("the channel was open"),
    }
}

#[test]
fn nothing_yet_hands_the_connection_back() {
    let cfg = Cfg::default();
    let r = Conn::framed::<u8, u8>(&cfg, Connect::running(), Poll::Pending);
    assert!(matches!(r, Ok((_, Poll::Pending))));
    // a connection that ended well does not decide
    let r = Conn::framed::<u8, u8>(&cfg, Connect::ended(Ok(())), Poll::Pending);
    match r {
        Ok((connection, Poll::Pending)) => {
            assert!(matches!(connection.poll(), Poll::Ready(Ok(()))))
        }
        _ => panic!("still waiting for the channel"),
    }
}

#[test]
fn failure_of_the_connection_wins() {
    let cfg = Cfg::default();
    let r = Conn::framed(
        &cfg,
        Connect::ended(Err(ChMuxError::StreamClosed)),
        Poll::Ready(Ok((1u8, 2u8))),
    );
    assert!(matches!(r, Err(ConnectError::ChMux(ChMuxError::StreamClosed))));
    let r = Conn::framed::<u8, u8>(
        &cfg,
        Connect::ended(Err(ChMuxError::Protocol)),
        Poll::Ready(Err(base::ConnectError::NoConnectRequest)),
    );
    assert!(matches!(r, Err(ConnectError::ChMux(ChMuxError::Protocol))));
    let r = Conn::framed::<u8, u8>(
        &cfg,
        Connect::running(),
        Poll::Ready(Err(base::ConnectError::Connect(chmux::ConnectError::Rejected))),
    );
    assert!(matches!(
        r,
        Err(ConnectError::RemoteConnect(base::ConnectError::Connect(
            chmux::ConnectError::Rejected
        )))
    ));
}

#[test]
fn byte_transport_is_framed_by_the_settings() {
    let cfg = Cfg { max_frame_length: 4096, ..Cfg::default() };
    let framing = Conn::io(&cfg);
    assert_eq!(framing.sink.max_frame_length(), 0xffff_ffff);
    assert_eq!(framing.stream.max_frame_length(), 4096);
    let buffered = Conn::io_buffered(&cfg, 8192);
    assert_eq!(buffered.read_capacity, 8192);
    assert_eq!(buffered.write_capacity, 8192);
    assert_eq!(buffered.framing, framing);
}

#[test]
fn connect_errors_in_words() {
    let e: ConnectError<IoError, IoError> =
        ConnectError::from(ChMuxError::SinkError(io_error("broken pipe")));
    assert_eq!(e.to_string(), "chmux error: send error: broken pipe");
    let e: ConnectError<IoError, IoError> =
        ConnectError::from(ChMuxError::StreamError(io_error("reset")));
    assert_eq!(e.to_string(), "chmux error: receive error: reset");
    let e: ConnectError<IoError, IoError> = ConnectError::from(base::ConnectError::Listen(
        chmux::ListenerError::MultiplexerError,
    ));
    assert_eq!(e.to_string(), "channel connect failed: listen error: multiplexer error");
    let e: ConnectError<IoError, IoError> =
        ConnectError::from(base::ConnectError::NoConnectRequest);
    assert_eq!(e.to_string(), "channel connect failed: no connect request received");
    let e: ChMuxError<IoError, IoError> = ChMuxError::FrameTooLong;
    assert_eq!(e.describe(), "frame exceeds maximum length");
    assert_eq!(
        base::ConnectError::Connect(chmux::ConnectError::LocalPortsExhausted).describe(),
        "connect error: all local ports are in use"
    );
}

#[test]
fn first_channel_needs_both_ports() {
    assert_eq!(base::connect(Poll::Pending, Poll::Pending, true), Poll::Pending);
    assert_eq!(base::connect(Poll::Ready(Ok(1)), Poll::Pending, true), Poll::Pending);
    assert_eq!(base::connect(Poll::Pending, Poll::Ready(Ok(2)), true), Poll::Pending);
    assert_eq!(
        base::connect(Poll::Ready(Ok(1)), Poll::Ready(Ok(2)), true),
        Poll::Ready(Ok((1, 2)))
    );
    assert_eq!(
        base::connect(Poll::Ready(Ok(1)), Poll::Ready(Ok(2)), false),
        Poll::Ready(Ok((1, 2)))
    );
    assert_eq!(
        base::connect(Poll::Ready(Ok(1)), Poll::Pending, false),
        Poll::Ready(Err(base::ConnectError::NoConnectRequest))
    );
    assert_eq!(
        base::connect(
            Poll::Ready(Err(chmux::ConnectError::Rejected)),
            Poll::Ready(Err(chmux::ListenerError::MultiplexerError)),
            true
        ),
        Poll::Ready(Err(base::ConnectError::Connect(chmux::ConnectError::Rejected)))
    );
    assert_eq!(
        base::connect(Poll::Pending, Poll::Ready(Err(chmux::ListenerError::LocalPortsExhausted)), true),
        Poll::Ready(Err(base::ConnectError::Listen(chmux::ListenerError::LocalPortsExhausted)))
    );
}
