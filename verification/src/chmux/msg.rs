//! The messages that two multiplexers exchange, and their bytes.
//!
//! A message is one frame. Its first byte says what it is; numbers follow
//! in four bytes each, lowest byte first; the payload of a data message is
//! the rest of the frame.

use crate::framing::{header, header_value};
use vstd::prelude::*;

verus! {

/// A message between multiplexers.
///
/// A port has a number at each side. A message about an open port names
/// the number that the port has at the side the message goes to.
#[derive(Clone, Debug, PartialEq, Eq)]
pub enum Msg {
    /// A request to open a port.
    Open {
        /// The number of the port at the side that asks.
        client_port: u32,
        /// How many bytes the side that asks takes in before it has to
        /// make room.
        window: u32,
    },
    /// The request was taken up.
    Accepted {
        /// The number of the port at the side that asked.
        client_port: u32,
        /// The number of the port at the side that answers.
        server_port: u32,
        /// How many bytes the side that answers takes in before it has to
        /// make room.
        window: u32,
    },
    /// The request was refused.
    Rejected {
        /// The number of the port at the side that asked.
        client_port: u32,
    },
    /// Bytes for a port.
    Data {
        /// The port.
        port: u32,
        /// The bytes.
        payload: Vec<u8>,
    },
    /// Room was made: so many more bytes may be sent to the port's other
    /// end.
    Credit {
        /// The port.
        port: u32,
        /// The number of bytes.
        bytes: u32,
    },
    /// No more bytes will come for the port.
    Finish {
        /// The port.
        port: u32,
    },
    /// No more bytes will be taken from the port.
    Close {
        /// The port.
        port: u32,
    },
    /// The side that sends this has nothing more to say.
    Goodbye,
}

/// How many bytes of a data message are not payload.
pub const DATA_OVERHEAD: u32 = 5;

/// A message as plain values: its kind, up to three numbers, and the
/// payload.
pub struct Fields {
    /// The first byte.
    pub tag: u8,
    /// The numbers, in order.
    pub numbers: Seq<u32>,
    /// The payload.
    pub payload: Seq<u8>,
}

/// The plain values of a message.
pub open spec fn fields(msg: Msg) -> Fields {
    match msg {
        Msg::Open { client_port, window } => Fields {
            tag: 0,
            numbers: seq![client_port, window],
            payload: Seq::empty(),
        },
        Msg::Accepted { client_port, server_port, window } => Fields {
            tag: 1,
            numbers: seq![client_port, server_port, window],
            payload: Seq::empty(),
        },
        Msg::Rejected { client_port } => Fields {
            tag: 2,
            numbers: seq![client_port],
            payload: Seq::empty(),
        },
        Msg::Data { port, payload } => Fields { tag: 3, numbers: seq![port], payload: payload@ },
        Msg::Credit { port, bytes } => Fields {
            tag: 4,
            numbers: seq![port, bytes],
            payload: Seq::empty(),
        },
        Msg::Finish { port } => Fields { tag: 5, numbers: seq![port], payload: Seq::empty() },
        Msg::Close { port } => Fields { tag: 6, numbers: seq![port], payload: Seq::empty() },
        Msg::Goodbye => Fields { tag: 7, numbers: Seq::empty(), payload: Seq::empty() },
    }
}

/// How many numbers a message of a kind has, if there is such a kind.
pub open spec fn arity(tag: u8) -> Option<nat> {
    if tag == 0 {
        Some(2)
    } else if tag == 1 {
        Some(3)
    } else if tag == 2 {
        Some(1)
    } else if tag == 3 {
        Some(1)
    } else if tag == 4 {
        Some(2)
    } else if tag == 5 {
        Some(1)
    } else if tag == 6 {
        Some(1)
    } else if tag == 7 {
        Some(0)
    } else {
        None
    }
}

/// Numbers as bytes, four each, lowest first.
pub open spec fn numbers_as_bytes(numbers: Seq<u32>) -> Seq<u8>
    decreases numbers.len(),
{
    if numbers.len() == 0 {
        Seq::empty()
    } else {
        numbers_as_bytes(numbers.drop_last()) + header(numbers.last())
    }
}

/// The bytes of a message.
pub open spec fn encoded(msg: Msg) -> Seq<u8> {
    seq![fields(msg).tag] + numbers_as_bytes(fields(msg).numbers) + fields(msg).payload
}

/// The number that stands at place `i` behind the first byte of a frame.
pub open spec fn number_at(frame: Seq<u8>, i: int) -> u32 {
    header_value(frame.subrange(1 + 4 * i, 5 + 4 * i)) as u32
}

/// Whether a frame is a message: its first byte names a kind, it is long
/// enough for the numbers of that kind, and only a data message has bytes
/// behind them.
pub open spec fn is_message(frame: Seq<u8>) -> bool {
    &&& frame.len() > 0
    &&& arity(frame[0]) matches Some(n)
    &&& frame.len() >= 1 + 4 * n
    &&& (frame[0] == 3 || frame.len() == 1 + 4 * n)
}

/// The plain values that a frame holds, if it is a message.
pub open spec fn frame_fields(frame: Seq<u8>) -> Fields
    recommends
        is_message(frame),
{
    let n = arity(frame[0])->Some_0;
    Fields {
        tag: frame[0],
        numbers: Seq::new(n, |i: int| number_at(frame, i)),
        payload: frame.subrange(1 + 4 * n as int, frame.len() as int),
    }
}

impl Msg {
    /// How many bytes the message takes.
    pub open spec fn spec_len(&self) -> nat {
        1 + 4 * fields(*self).numbers.len() + fields(*self).payload.len()
    }

    /// Writes the message out. A message whose payload would not fit in
    /// memory next to its header cannot be.
    pub fn encode(&self) -> (bytes: Vec<u8>)
        requires
            self.spec_len() <= usize::MAX,
        ensures
            bytes@ == encoded(*self),
            bytes@.len() == self.spec_len(),
    {
        let mut bytes: Vec<u8> = Vec::new();
        proof {
            reveal_with_fuel(numbers_as_bytes, 4);
        }
        match self {
            Msg::Open { client_port, window } => {
                bytes.push(0);
                put(&mut bytes, *client_port);
                put(&mut bytes, *window);
                assert(seq![*client_port, *window].drop_last() =~= seq![*client_port]);
                assert(seq![*client_port].drop_last() =~= Seq::<u32>::empty());
            },
            Msg::Accepted { client_port, server_port, window } => {
                bytes.push(1);
                put(&mut bytes, *client_port);
                put(&mut bytes, *server_port);
                put(&mut bytes, *window);
                assert(seq![*client_port, *server_port, *window].drop_last() =~= seq![
                    *client_port,
                    *server_port,
                ]);
                assert(seq![*client_port, *server_port].drop_last() =~= seq![*client_port]);
                assert(seq![*client_port].drop_last() =~= Seq::<u32>::empty());
            },
            Msg::Rejected { client_port } => {
                bytes.push(2);
                put(&mut bytes, *client_port);
                assert(seq![*client_port].drop_last() =~= Seq::<u32>::empty());
            },
            Msg::Data { port, payload } => {
                bytes.push(3);
                put(&mut bytes, *port);
                assert(seq![*port].drop_last() =~= Seq::<u32>::empty());
                let ghost head = bytes@;
                let n: usize = payload.len();
                let mut i: usize = 0;
                while i < n
                    invariant
                        i <= n,
                        n == payload@.len(),
                        bytes@ == head + payload@.take(i as int),
                    decreases n - i,
                {
                    bytes.push(payload[i]);
                    assert(payload@.take(i + 1) =~= payload@.take(i as int).push(payload@[i as int]));
                    i += 1;
                }
                assert(payload@.take(n as int) =~= payload@);
            },
            Msg::Credit { port, bytes: granted } => {
                bytes.push(4);
                put(&mut bytes, *port);
                put(&mut bytes, *granted);
                assert(seq![*port, *granted].drop_last() =~= seq![*port]);
                assert(seq![*port].drop_last() =~= Seq::<u32>::empty());
            },
            Msg::Finish { port } => {
                bytes.push(5);
                put(&mut bytes, *port);
                assert(seq![*port].drop_last() =~= Seq::<u32>::empty());
            },
            Msg::Close { port } => {
                bytes.push(6);
                put(&mut bytes, *port);
                assert(seq![*port].drop_last() =~= Seq::<u32>::empty());
            },
            Msg::Goodbye => {
                bytes.push(7);
            },
        }
        assert(bytes@ =~= encoded(*self));
        bytes
    }

    /// Reads a message from a frame. Gives `None` for a frame that is not
    /// a message.
    pub fn decode(frame: &[u8]) -> (msg: Option<Msg>)
        ensures
            msg is Some <==> is_message(frame@),
            msg matches Some(found) ==> fields(found) == frame_fields(frame@),
    {
        if frame.len() == 0 {
            return None;
        }
        let tag: u8 = frame[0];
        let n: usize = if tag == 0 {
            2
        } else if tag == 1 {
            3
        } else if tag == 2 {
            1
        } else if tag == 3 {
            1
        } else if tag == 4 {
            2
        } else if tag == 5 {
            1
        } else if tag == 6 {
            1
        } else if tag == 7 {
            0
        } else {
            return None;
        };
        if frame.len() - 1 < 4 * n {
            return None;
        }
        if tag != 3 && frame.len() - 1 != 4 * n {
            return None;
        }
        let ghost found = frame_fields(frame@);
        let msg = if tag == 0 {
            let msg = Msg::Open { client_port: get(frame, 0), window: get(frame, 1) };
            assert(fields(msg).numbers =~= found.numbers);
            assert(fields(msg).payload =~= found.payload);
            msg
        } else if tag == 1 {
            let msg = Msg::Accepted {
                client_port: get(frame, 0),
                server_port: get(frame, 1),
                window: get(frame, 2),
            };
            assert(fields(msg).numbers =~= found.numbers);
            assert(fields(msg).payload =~= found.payload);
            msg
        } else if tag == 2 {
            let msg = Msg::Rejected { client_port: get(frame, 0) };
            assert(fields(msg).numbers =~= found.numbers);
            assert(fields(msg).payload =~= found.payload);
            msg
        } else if tag == 3 {
            let port = get(frame, 0);
            let total: usize = frame.len();
            let mut payload: Vec<u8> = Vec::new();
            let mut i: usize = 5;
            while i < total
                invariant
                    5 <= i <= total,
                    total == frame@.len(),
                    payload@ == frame@.subrange(5, i as int),
                decreases total - i,
            {
                payload.push(frame[i]);
                assert(frame@.subrange(5, i + 1) =~= frame@.subrange(5, i as int).push(
                    frame@[i as int],
                ));
                i += 1;
            }
            let msg = Msg::Data { port, payload };
            assert(fields(msg).numbers =~= found.numbers);
            msg
        } else if tag == 4 {
            let msg = Msg::Credit { port: get(frame, 0), bytes: get(frame, 1) };
            assert(fields(msg).numbers =~= found.numbers);
            assert(fields(msg).payload =~= found.payload);
            msg
        } else if tag == 5 {
            let msg = Msg::Finish { port: get(frame, 0) };
            assert(fields(msg).numbers =~= found.numbers);
            assert(fields(msg).payload =~= found.payload);
            msg
        } else if tag == 6 {
            let msg = Msg::Close { port: get(frame, 0) };
            assert(fields(msg).numbers =~= found.numbers);
            assert(fields(msg).payload =~= found.payload);
            msg
        } else {
            let msg = Msg::Goodbye;
            assert(fields(msg).numbers =~= found.numbers);
            assert(fields(msg).payload =~= found.payload);
            msg
        };
        Some(msg)
    }
}

/// Appends a number as four bytes, lowest first.
fn put(bytes: &mut Vec<u8>, number: u32)
    ensures
        final(bytes)@ == old(bytes)@ + header(number),
{
    bytes.push((number % 256) as u8);
    bytes.push((number / 256 % 256) as u8);
    bytes.push((number / 65536 % 256) as u8);
    bytes.push((number / 16777216) as u8);
    assert(bytes@ =~= old(bytes)@ + header(number));
}

/// Reads the number at place `i` behind the first byte.
fn get(frame: &[u8], i: usize) -> (number: u32)
    requires
        i < 3,
        frame@.len() >= 5 + 4 * i,
    ensures
        number == number_at(frame@, i as int),
{
    let at: usize = 1 + 4 * i;
    let value: u64 = frame[at] as u64 + 256 * (frame[at + 1] as u64) + 65536 * (frame[at + 2] as u64)
        + 16777216 * (frame[at + 3] as u64);
    let ghost part = frame@.subrange(1 + 4 * i, 5 + 4 * i);
    assert(part[0] == frame@[at as int] && part[1] == frame@[at + 1] && part[2] == frame@[at + 2]
        && part[3] == frame@[at + 3]);
    value as u32
}

/// What is written is a message, and reading it gives back what it said.
pub proof fn lemma_msg_round_trip(msg: Msg)
    ensures
        is_message(encoded(msg)),
        frame_fields(encoded(msg)) == fields(msg),
{
    let frame = encoded(msg);
    let f = fields(msg);
    reveal_with_fuel(numbers_as_bytes, 4);
    let n = f.numbers.len() as int;
    assert(frame[0] == f.tag);
    if n >= 1 {
        assert(f.numbers.drop_last().len() == n - 1);
    }
    lemma_numbers_round_trip(f.tag, f.numbers, f.payload);
    assert(frame_fields(frame).numbers =~= f.numbers);
    assert(frame_fields(frame).payload =~= f.payload);
}

/// Numbers that are written behind a first byte are read back as they
/// were.
proof fn lemma_numbers_round_trip(tag: u8, numbers: Seq<u32>, rest: Seq<u8>)
    ensures
        numbers_as_bytes(numbers).len() == 4 * numbers.len(),
        forall|i: int|
            0 <= i < numbers.len() ==> #[trigger] number_at(
                seq![tag] + numbers_as_bytes(numbers) + rest,
                i,
            ) == numbers[i],
    decreases numbers.len(),
{
    if numbers.len() > 0 {
        let front = numbers.drop_last();
        let last = numbers.last();
        lemma_numbers_round_trip(tag, front, header(last) + rest);
        let frame = seq![tag] + numbers_as_bytes(numbers) + rest;
        let other = seq![tag] + numbers_as_bytes(front) + (header(last) + rest);
        assert(frame =~= other);
        crate::framing::lemma_header_round_trip(last);
        assert forall|i: int| 0 <= i < numbers.len() implies #[trigger] number_at(frame, i)
            == numbers[i] by {
            if i < numbers.len() - 1 {
                assert(number_at(other, i) == front[i]);
            } else {
                let part = frame.subrange(1 + 4 * i, 5 + 4 * i);
                assert(part =~= header(last));
            }
        }
    }
}

} // verus!
