//! Remote multiplexed channels.
//!
//! Two endpoints joined by one byte stream exchange many independent channels
//! over it. The multiplexer carves the stream into ports; the remote channel
//! layer lets a channel half travel inside a message and come out usable on
//! the other side.
//!
//! Everything here is sequential and owns its state: each component is a
//! state object whose methods say, in their contracts, what a step does.
//! Tasks, sockets and waiting belong to the caller, who hands in what
//! happened and carries out what is to be done. Where a state object is fed
//! from a channel that other tasks fill, it asks the channel itself and
//! says what holds whatever the channel gave.

pub mod chmux;
pub mod codec;
pub mod connect;
pub mod framing;
pub mod rch;
pub mod rtc;
pub mod text;
