//! Codec tags.
//!
//! What turns values into bytes is chosen by the caller. A channel half only
//! carries the choice in its type, so that the far side decodes with the
//! codec the near side encoded with.

use vstd::prelude::*;

verus! {

/// A type that names a codec.
pub trait Codec {

}

/// The codec that channels use unless told otherwise.
#[derive(Clone, Copy, Debug, PartialEq, Eq, Structural)]
pub struct DefaultCodec;

impl Codec for DefaultCodec {

}

} // verus!
