//! Specification for the one `String` operation used here that vstd leaves
//! unspecified.

use vstd::prelude::*;

verus! {

/// Relies on std's String::push: its documentation says it appends the given
/// character to the end of this String.
pub assume_specification[ String::push ](s: &mut String, ch: char)
    ensures
        final(s)@ == old(s)@.push(ch),
;

} // verus!
