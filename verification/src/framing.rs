//! Frames on a stream of bytes.
//!
//! A transport that only moves bytes is cut into frames by a header in
//! front of each: four bytes that hold the length of what follows, lowest
//! byte first.

use tokio_util::codec::length_delimited::Builder;
use tokio_util::codec::LengthDelimitedCodec;
use vstd::prelude::*;

verus! {

/// The settings of the length-delimited codec of `tokio-util`. What is
/// inside is not looked at here.
#[verifier::external_type_specification]
#[verifier::external_body]
pub struct ExBuilder(Builder);

/// The settings that `LengthDelimitedCodec::builder` of `tokio-util` gives
/// once its methods `little_endian`, `length_field_length` and
/// `max_frame_length` have been called on them, the last two with these
/// numbers: lengths that stand lowest byte first in a field of
/// `length_field_length` bytes, and frames of up to `max_frame_length`
/// bytes. The settings are plain numbers and flags, and the same numbers
/// give the same settings.
pub uninterp spec fn little_endian_settings(
    length_field_length: usize,
    max_frame_length: usize,
) -> Builder;

/// `LengthDelimitedCodec::builder` of `tokio-util`, with what its methods
/// `little_endian`, `length_field_length` and `max_frame_length` set.
///
/// `length_field_length` panics unless the length is between one and
/// eight, so no other is let through. What comes back is claimed to be
/// [`little_endian_settings`] of the two numbers, and nothing else.
#[verifier::external_body]
fn little_endian_builder(length_field_length: usize, max_frame_length: usize) -> (builder: Builder)
    requires
        0 < length_field_length <= 8,
    ensures
        builder == little_endian_settings(length_field_length, max_frame_length),
{
    let mut builder = LengthDelimitedCodec::builder();
    builder.little_endian().length_field_length(length_field_length).max_frame_length(
        max_frame_length,
    );
    builder
}

/// The length of a header, in bytes.
pub const HEADER_LENGTH: usize = 4;

/// The header of a frame that holds `length` bytes.
pub open spec fn header(length: u32) -> Seq<u8> {
    seq![
        (length % 256) as u8,
        (length / 256 % 256) as u8,
        (length / 65536 % 256) as u8,
        (length / 16777216) as u8,
    ]
}

/// The length that the first four of these bytes stand for.
pub open spec fn header_value(bytes: Seq<u8>) -> nat
    recommends
        bytes.len() >= 4,
{
    (bytes[0] + 256 * bytes[1] + 65536 * bytes[2] + 16777216 * bytes[3]) as nat
}

/// A payload as it stands on the stream: its header, then itself.
pub open spec fn frame(payload: Seq<u8>) -> Seq<u8>
    recommends
        payload.len() <= u32::MAX,
{
    header(payload.len() as u32) + payload
}

/// A header stands for the length it was made from.
pub proof fn lemma_header_round_trip(length: u32)
    ensures
        header(length).len() == 4,
        header_value(header(length)) == length,
{
}

/// What goes wrong with a frame.
#[derive(Clone, Copy, Debug, PartialEq, Eq, Structural)]
pub enum FrameError {
    /// The frame is longer than the limit. The transport cannot go on.
    TooLong,
}

/// What can be read from the front of some bytes.
pub enum Decoded {
    /// A whole frame: its payload, and how many bytes it took up with its
    /// header.
    Frame(Seq<u8>, nat),
    /// Not yet a whole frame: more bytes are needed.
    Incomplete,
    /// A header that announces more than the limit allows.
    TooLong,
}

/// Frames with a length in front, up to a longest payload.
#[derive(Clone, Copy, Debug, PartialEq, Eq, Structural)]
pub struct LengthPrefix {
    max_frame_length: usize,
}

impl LengthPrefix {
    /// The longest payload that is written or taken.
    pub closed spec fn limit(&self) -> nat {
        self.max_frame_length as nat
    }

    /// Whether a payload of this length can be framed: it is within the
    /// limit and its length fits the header.
    pub open spec fn fits(&self, length: nat) -> bool {
        length <= self.limit() && length <= u32::MAX
    }

    /// What the front of `bytes` holds.
    pub open spec fn decoded(&self, bytes: Seq<u8>) -> Decoded {
        if bytes.len() < 4 {
            Decoded::Incomplete
        } else {
            let length = header_value(bytes);
            if length > self.limit() {
                Decoded::TooLong
            } else if bytes.len() < 4 + length {
                Decoded::Incomplete
            } else {
                Decoded::Frame(bytes.subrange(4, 4 + length as int), 4 + length)
            }
        }
    }

    /// Frames with payloads of up to `max_frame_length` bytes.
    pub fn new(max_frame_length: usize) -> (framing: Self)
        ensures
            framing.limit() == max_frame_length,
    {
        LengthPrefix { max_frame_length }
    }

    /// The longest payload that is written or taken.
    pub fn max_frame_length(&self) -> (n: usize)
        ensures
            n == self.limit(),
    {
        self.max_frame_length
    }

    /// This framing as settings for the length-delimited codec of
    /// `tokio-util`, for a transport that is read or written through that
    /// codec: lengths of four bytes, lowest byte first, and the same limit.
    pub fn builder(&self) -> (builder: Builder)
        ensures
            builder == little_endian_settings(HEADER_LENGTH, self.limit() as usize),
    {
        little_endian_builder(HEADER_LENGTH, self.max_frame_length)
    }

    /// Appends a payload to `dst` as a frame. A payload that does not fit is
    /// refused and nothing is written.
    pub fn encode(&self, payload: &[u8], dst: &mut Vec<u8>) -> (r: Result<(), FrameError>)
        ensures
            r is Ok <==> self.fits(payload@.len()),
            r is Ok ==> final(dst)@ == old(dst)@ + frame(payload@),
            r is Err ==> r == Err::<(), FrameError>(FrameError::TooLong) && final(dst)@ == old(
                dst,
            )@,
    {
        let n: usize = payload.len();
        if n > self.max_frame_length || n > 0xffff_ffff {
            return Err(FrameError::TooLong);
        }
        let length: u32 = n as u32;
        dst.push((length % 256) as u8);
        dst.push((length / 256 % 256) as u8);
        dst.push((length / 65536 % 256) as u8);
        dst.push((length / 16777216) as u8);
        assert(dst@ =~= old(dst)@ + header(length));
        let mut i: usize = 0;
        while i < n
            invariant
                i <= n,
                n == payload@.len(),
                dst@ == old(dst)@ + header(length) + payload@.take(i as int),
            decreases n - i,
        {
            dst.push(payload[i]);
            assert(payload@.take(i + 1) =~= payload@.take(i as int).push(payload@[i as int]));
            i += 1;
        }
        assert(payload@.take(n as int) =~= payload@);
        assert(dst@ =~= old(dst)@ + frame(payload@));
        Ok(())
    }

    /// Reads one frame from the front of `src` if a whole one is there:
    /// gives its payload and the number of bytes it took up. Gives `None`
    /// while more bytes are needed, and fails on a header that announces
    /// more than the limit.
    pub fn decode(&self, src: &[u8]) -> (r: Result<Option<(Vec<u8>, usize)>, FrameError>)
        ensures
            match self.decoded(src@) {
                Decoded::Frame(payload, taken) => r matches Ok(Some(found)) && found.0@ == payload
                    && found.1 == taken,
                Decoded::Incomplete => r == Ok::<Option<(Vec<u8>, usize)>, FrameError>(None),
                Decoded::TooLong => r == Err::<Option<(Vec<u8>, usize)>, FrameError>(
                    FrameError::TooLong,
                ),
            },
    {
        if src.len() < 4 {
            return Ok(None);
        }
        let length: u64 = src[0] as u64 + 256 * (src[1] as u64) + 65536 * (src[2] as u64) + 16777216
            * (src[3] as u64);
        if length > self.max_frame_length as u64 {
            return Err(FrameError::TooLong);
        }
        let n: usize = length as usize;
        if src.len() - 4 < n {
            return Ok(None);
        }
        let total: usize = src.len();
        let mut payload: Vec<u8> = Vec::new();
        let mut i: usize = 0;
        while i < n
            invariant
                i <= n,
                4 + n <= total,
                total == src@.len(),
                payload@ == src@.subrange(4, 4 + i),
            decreases n - i,
        {
            payload.push(src[4 + i]);
            assert(src@.subrange(4, 4 + i + 1) =~= src@.subrange(4, 4 + i).push(src@[4 + i]));
            i += 1;
        }
        Ok(Some((payload, 4 + n)))
    }
}

/// What was framed is read back as it was, whatever follows it on the
/// stream.
pub proof fn lemma_frame_round_trip(framing: LengthPrefix, payload: Seq<u8>, rest: Seq<u8>)
    requires
        framing.fits(payload.len()),
    ensures
        framing.decoded(frame(payload) + rest) == Decoded::Frame(payload, 4 + payload.len()),
{
    let bytes = frame(payload) + rest;
    let length = payload.len() as u32;
    lemma_header_round_trip(length);
    assert(bytes[0] == header(length)[0]);
    assert(bytes[1] == header(length)[1]);
    assert(bytes[2] == header(length)[2]);
    assert(bytes[3] == header(length)[3]);
    assert(header_value(bytes) == length);
    assert(bytes.subrange(4, 4 + length) =~= payload);
}

/// While a frame has not arrived whole, nothing is read and no error is
/// raised.
pub proof fn lemma_part_of_frame_is_incomplete(framing: LengthPrefix, payload: Seq<u8>, part: int)
    requires
        framing.fits(payload.len()),
        0 <= part < frame(payload).len(),
    ensures
        framing.decoded(frame(payload).take(part)) == Decoded::Incomplete,
{
    let bytes = frame(payload).take(part);
    let length = payload.len() as u32;
    lemma_header_round_trip(length);
    if part >= 4 {
        assert(bytes[0] == header(length)[0]);
        assert(bytes[1] == header(length)[1]);
        assert(bytes[2] == header(length)[2]);
        assert(bytes[3] == header(length)[3]);
        assert(header_value(bytes) == length);
    }
}

} // verus!
