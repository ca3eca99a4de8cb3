//! Human-readable descriptions of values.

use vstd::prelude::*;

verus! {

/// `String::push_str` of the standard library appends the given slice to the
/// end of the string and leaves what was there in place.
pub assume_specification[ String::push_str ](s: &mut String, string: &str)
    ensures
        final(s)@ == old(s)@ + string@,
;

/// A value that can describe itself in words.
///
/// This takes the place that a formatting trait has for error values: the
/// transport's error types implement it so that errors which wrap them can
/// spell out the whole chain.
pub trait Describe {
    /// The description, as a sequence of characters.
    spec fn description(&self) -> Seq<char>;

    /// Writes the description out.
    fn describe(&self) -> (text: String)
        ensures
            text@ == self.description(),
    ;
}

/// A prefix, then the description of the value it introduces.
pub fn prefixed<E: Describe>(prefix: &str, inner: &E) -> (text: String)
    ensures
        text@ == prefix@ + inner.description(),
{
    let mut text = prefix.to_owned();
    let tail = inner.describe();
    text.push_str(tail.as_str());
    text
}

} // verus!
