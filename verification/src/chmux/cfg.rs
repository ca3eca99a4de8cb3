//! The settings of a multiplexer.

use vstd::prelude::*;

verus! {

/// The shortest maximum frame length that leaves room for a message header
/// and some payload.
pub const MIN_FRAME_LENGTH: u32 = 16;

/// The largest number of ports that port numbers can tell apart when one
/// bit of the number says which side opened the port.
pub const MAX_PORTS: u32 = 0x8000_0000;

/// The settings of a multiplexer. They are fixed when it is built.
#[derive(Clone, Copy, Debug, PartialEq, Eq, Structural)]
pub struct Cfg {
    /// The longest frame that is sent or taken, in bytes.
    pub max_frame_length: u32,
    /// How many ports may be open at once.
    pub max_ports: u32,
    /// How many requests for a port may wait for the peer's answer at once.
    pub max_pending_connects: u16,
    /// How many bytes a port takes in before the receiver has to make room:
    /// the credit that a sender starts with.
    pub receive_buffer: u32,
}

impl Cfg {
    /// Whether a multiplexer can be built with these settings.
    pub open spec fn valid(&self) -> bool {
        &&& self.max_frame_length >= MIN_FRAME_LENGTH
        &&& 0 < self.max_ports <= MAX_PORTS
        &&& self.max_pending_connects > 0
        &&& self.receive_buffer > 0
    }

    /// Whether a multiplexer can be built with these settings. To build one
    /// with others is a mistake of the program, not a failure to recover
    /// from: callers check before they construct.
    pub fn check(&self) -> (ok: bool)
        ensures
            ok == self.valid(),
    {
        self.max_frame_length >= MIN_FRAME_LENGTH && 0 < self.max_ports && self.max_ports
            <= MAX_PORTS && self.max_pending_connects > 0 && self.receive_buffer > 0
    }

    /// The longest frame that is sent or taken, in bytes.
    pub fn max_frame_length(&self) -> (n: u32)
        ensures
            n == self.max_frame_length,
    {
        self.max_frame_length
    }
}

impl Default for Cfg {
    fn default() -> (cfg: Cfg)
        ensures
            cfg.valid(),
            cfg == (Cfg {
                max_frame_length: 65536,
                max_ports: 16384,
                max_pending_connects: 128,
                receive_buffer: 65536,
            }),
    {
        Cfg {
            max_frame_length: 65536,
            max_ports: 16384,
            max_pending_connects: 128,
            receive_buffer: 65536,
        }
    }
}

} // verus!
