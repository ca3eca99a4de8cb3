//! The multiplexer: many ports over one transport.

pub mod cfg;
pub mod error;
pub mod frame;
pub mod msg;
pub mod mux;
pub mod ports;

pub use cfg::Cfg;
pub use error::{ChMuxError, ConnectError, ListenerError, RecvError};
pub use msg::Msg;
pub use mux::ChMux;
pub use ports::{PortRegistry, PortState};
