//! What this crate takes on trust about `std::string::String`.

use vstd::prelude::*;

verus! {

/// `String::push` of the standard library appends the given character to the
/// end of the string and changes nothing else: afterwards the string reads
/// as before, followed by `ch`. This is taken from its documentation and is
/// not proved here.
pub assume_specification[ std::string::String::push ](s: &mut std::string::String, ch: char)
    ensures
        final(s)@ == old(s)@.push(ch),
;

} // verus!
