//! The per-line decision the grep-like front end is driven by.

use vstd::prelude::*;

verus! {

/// Whether a line is printed: a matching line normally, a non-matching line
/// when matches are inverted.
pub fn should_print(matched: bool, invert_match: bool) -> (r: bool)
    ensures
        r == (matched != invert_match),
{
    if invert_match {
        !matched
    } else {
        matched
    }
}

} // verus!
