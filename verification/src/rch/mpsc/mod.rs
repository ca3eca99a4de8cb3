//! A queue with one receiver, which may sit at the far end of a port.

pub mod distributor;
pub mod receiver;
pub mod sender;

pub use distributor::Distributor;
pub use receiver::{Receiver, RecvError, TryRecvError};
pub use sender::Sender;
