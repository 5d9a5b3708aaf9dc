//! Small string-building helpers shared by the rest of the library.

use vstd::prelude::*;

verus! {

/// Relies on String::push: appends the given character to the end of the
/// string and changes nothing else.
#[verifier::external_body]
pub(crate) fn push_char(s: &mut String, c: char)
    ensures
        final(s)@ == old(s)@.push(c),
{
    s.push(c);
}

} // verus!
