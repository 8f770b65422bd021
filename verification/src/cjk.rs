//! Chinese, Japanese and Korean character ranges and their classifier.

use vstd::prelude::*;

verus! {

/// Lower bounds of the CJK block ranges, paired index by index with `CJK_RANGE_HI`.
pub const CJK_RANGE_LO: [u16; 14] = [
    0x4E00, 0x3400, 0xF900, 0x2F00, 0x2E80, 0x31C0, 0x2FF0, 0x3000,
    0xFE30, 0xFF00, 0xFE50, 0xFE10, 0x3200, 0x3300,
];

/// Upper bounds of the CJK block ranges.
pub const CJK_RANGE_HI: [u16; 14] = [
    0x9FFF, 0x4DBF, 0xFAFF, 0x2FDF, 0x2EFF, 0x31EF, 0x2FFF, 0x303F,
    0xFE4F, 0xFFEF, 0xFE6F, 0xFE1F, 0x32FF, 0x33FF,
];

/// Whether `c` lies in one of the CJK block ranges.
pub open spec fn spec_is_cjk(c: u16) -> bool {
    exists|k: int| 0 <= k < 14 && CJK_RANGE_LO[k] <= c && c <= CJK_RANGE_HI[k]
}

/// Check whether a character is CJK (Chinese, Japanese or Korean).
pub fn is_cjk(c: &u16) -> (r: bool)
    ensures
        r == spec_is_cjk(*c),
{
    let mut i: usize = 0;
    while i < 14
        invariant
            i <= 14,
            forall|k: int| 0 <= k < i ==> !(CJK_RANGE_LO[k] <= *c && *c <= CJK_RANGE_HI[k]),
        decreases 14 - i,
    {
        if CJK_RANGE_LO[i] <= *c && *c <= CJK_RANGE_HI[i] {
            return true;
        }
        i += 1;
    }
    false
}

} // verus!
