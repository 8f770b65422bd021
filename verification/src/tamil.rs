//! Tamil script: classification and shaping.

use vstd::prelude::*;
use crate::shape::shared_shaper;
use crate::shape::spec_shared_shaper;

verus! {

/// The Tamil dependent vowels, each of which swaps with its predecessor.
pub const TAMIL_VOWELS: [u16; 11] = [
    3006, 3007, 3008, 3009, 3010, 3011, 3012, 3013, 3014, 3015, 3016,
];

/// Whether `c` lies in the Tamil block.
pub open spec fn spec_is_tamil(c: u16) -> bool {
    0x0B80 <= c && c <= 0x0BFF
}

/// Check whether a character belongs to the Tamil script.
pub fn is_tamil(c: &u16) -> (r: bool)
    ensures
        r == spec_is_tamil(*c),
{
    0x0B80 <= *c && *c <= 0x0BFF
}

/// Shape Tamil text: each dependent vowel swaps with its predecessor.
pub fn shape_tamil(input: &mut Vec<u16>)
    ensures
        final(input)@ == spec_shared_shaper(old(input)@, TAMIL_VOWELS@),
        final(input)@.len() == old(input)@.len(),
{
    shared_shaper(input, TAMIL_VOWELS.as_slice());
}

} // verus!
