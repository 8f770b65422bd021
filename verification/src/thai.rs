//! Thai presentation-range classifier.

use vstd::prelude::*;

verus! {

/// Whether `c` lies in the range the Thai classifier reports.
pub open spec fn spec_is_thai(c: u16) -> bool {
    0xFE70 <= c && c <= 0xFEFF
}

/// Check whether a character falls in the Thai classifier's range.
pub fn is_thai(c: &u16) -> (r: bool)
    ensures
        r == spec_is_thai(*c),
{
    0xFE70 <= *c && *c <= 0xFEFF
}

} // verus!
