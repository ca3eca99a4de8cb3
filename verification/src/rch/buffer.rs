//! Queue sizes, chosen in the type of a channel half.

use vstd::prelude::*;

verus! {

/// A type that names the size of the queue a received channel half gets.
pub trait Size {
    /// The size.
    spec fn spec_size() -> usize;

    /// The size, at run time.
    fn size() -> (n: usize)
        ensures
            n == Self::spec_size(),
    ;
}

/// Room for two entries.
#[derive(Clone, Copy, Debug, PartialEq, Eq, Structural)]
pub struct DefaultSize;

impl Size for DefaultSize {
    open spec fn spec_size() -> usize {
        2
    }

    fn size() -> (n: usize) {
        2
    }
}

/// Room for `N` entries.
pub struct Custom<const N: usize>;

impl<const N: usize> Size for Custom<N> {
    open spec fn spec_size() -> usize {
        N
    }

    fn size() -> (n: usize) {
        N
    }
}

} // verus!
