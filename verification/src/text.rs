//! Building strings one character at a time.

use vstd::prelude::*;

verus! {

/// Appends `c` to `s`: a call of `String::push`, whose documentation says
/// that it appends the given `char` to the end of the `String`.
#[verifier::external_body]
pub(crate) fn string_push(s: &mut String, c: char)
    ensures
        final(s)@ == old(s)@.push(c),
{
    s.push(c);
}

} // verus!
