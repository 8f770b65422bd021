//! The static data of the Arabic shaper: the link table of the base
//! Arabic block, the link tables of the two presentation-form blocks, the
//! conversion tables between abstract and presentation forms, and the
//! shape-selection table.

use vstd::prelude::*;

verus! {

/// The isolated and final yeh forms that replace a yeh-with-hamza.
pub const YEH_HAMZA_TO_YEH: [u16; 2] = [
    0xFEEF, 0xFEF0,
];

/// The Alef of each Lam-Alef presentation form, indexed from 0xFEF5.
pub const CONVERT_LAM_ALEF: [u16; 8] = [
    0x0622, 0x0622, 0x0623, 0x0623, 0x0625, 0x0625, 0x0627, 0x0627,
];

/// Whether each unit of the lower presentation-form block is a medial tashkeel form, indexed from 0xFE70.
pub const TASHKEEL_MEDIAL: [u8; 16] = [
    0, 1, 0, 0, 0, 0, 0, 1, 0, 1, 0, 1, 0, 1, 0, 1,
];

/// Whether each unit from 0xFEB1 is an isolated or final Seen-family form.
pub const TAIL_FAMILY_ISOLATED_FINAL: [u8; 14] = [
    1, 1, 0, 0, 1, 1, 0, 0, 1, 1, 0, 0, 1, 1,
];

/// The link value of each unit of the base Arabic block, indexed from 0x0622: joining bits, Lam/Alef/combining flags, and the presentation-form offset in the high byte.
pub const ARA_LINK: [u16; 178] = [
    1 + 32 + 256 * 0x11, 1 + 32 + 256 * 0x13, 1 + 256 * 0x15, 1 + 32 + 256 * 0x17, 1 + 2 + 256 * 0x19, 1 + 32 + 256 * 0x1D, 1 + 2 + 256 * 0x1F, 1 + 256 * 0x23,
    1 + 2 + 256 * 0x25, 1 + 2 + 256 * 0x29, 1 + 2 + 256 * 0x2D, 1 + 2 + 256 * 0x31, 1 + 2 + 256 * 0x35, 1 + 256 * 0x39, 1 + 256 * 0x3B, 1 + 256 * 0x3D,
    1 + 256 * 0x3F, 1 + 2 + 256 * 0x41, 1 + 2 + 256 * 0x45, 1 + 2 + 256 * 0x49, 1 + 2 + 256 * 0x4D, 1 + 2 + 256 * 0x51, 1 + 2 + 256 * 0x55, 1 + 2 + 256 * 0x59,
    1 + 2 + 256 * 0x5D, 0, 0, 0, 0, 0, 1 + 2, 1 + 2 + 256 * 0x61,
    1 + 2 + 256 * 0x65, 1 + 2 + 256 * 0x69, 1 + 2 + 16 + 256 * 0x6D, 1 + 2 + 256 * 0x71, 1 + 2 + 256 * 0x75, 1 + 2 + 256 * 0x79, 1 + 256 * 0x7D, 1 + 256 * 0x7F,
    1 + 2 + 256 * 0x81, 4 + 256, 4 + 128 + 256, 4 + 128 + 256, 4 + 128 + 256, 4 + 128 + 256, 4 + 128 + 256, 4 + 64 + 256 * 3,
    4 + 256, 4 + 256 * 7, 4 + 256 * 8, 4 + 256 * 8, 4 + 256, 0, 0, 0,
    0, 0, 1 + 256 * 0x85, 1 + 256 * 0x87, 1 + 256 * 0x89, 1 + 256 * 0x8B, 0, 0,
    0, 0, 0, 0, 0, 0, 0, 0,
    0, 0, 0, 0, 0, 0, 4 + 256 * 6, 1 + 8,
    1 + 32, 1 + 32, 0, 1 + 32, 1, 1, 1 + 2, 1 + 2 + 8 + 256 * 0x16,
    1 + 2 + 8 + 256 * 0x0E, 1 + 2 + 8 + 256 * 0x02, 1 + 2, 1 + 2, 1 + 2 + 8 + 256 * 0x06, 1 + 2, 1 + 2, 1 + 2,
    1 + 2, 1 + 2, 1 + 2, 1 + 2, 1 + 2 + 8 + 256 * 0x2A, 1 + 2, 1 + 8 + 256 * 0x38, 1,
    1, 1, 1 + 8 + 256 * 0x34, 1 + 8 + 256 * 0x32, 1 + 8 + 256 * 0x36, 1, 1, 1 + 8 + 256 * 0x3C,
    1, 1, 1, 1, 1, 1, 1 + 8 + 256 * 0x3A, 1,
    1 + 2, 1 + 2, 1 + 2, 1 + 2, 1 + 2, 1 + 2, 1 + 2, 1 + 2,
    1 + 2, 1 + 2, 1 + 2, 1 + 2, 1 + 2, 1 + 2, 1 + 2, 1 + 2 + 8 + 256 * 0x3E,
    1 + 2, 1 + 2, 1 + 2, 1 + 2, 1 + 2, 1 + 2 + 8 + 256 * 0x42, 1 + 2, 1 + 2,
    1 + 2, 1 + 2, 1 + 2, 1 + 2, 1 + 2, 1 + 2, 1 + 2, 1 + 2,
    1 + 8 + 256 * 0x4E, 1 + 2 + 8 + 256 * 0x50, 1 + 2, 1 + 2, 1 + 2 + 8 + 256 * 0x5A, 1 + 2, 1 + 8 + 256 * 0x54, 1 + 2 + 8 + 256 * 0x56,
    1, 1, 1, 1 + 8 + 256 * 0x90, 1 + 8 + 256 * 0x89, 1 + 8 + 256 * 0x87, 1 + 8 + 256 * 0x8B, 1 + 8 + 256 * 0x92,
    1, 1 + 8 + 256 * 0x8E, 1 + 2 + 8 + 256 * 0xAC, 1, 1 + 2, 1 + 2, 1 + 2 + 8 + 256 * 0x94, 1 + 2,
    1 + 8 + 256 * 0x5E, 1 + 8 + 256 * 0x60,
];

/// The link value of each unit of the Presentation Forms-A block, indexed from 0xFB50.
pub const PRES_ALINK: [u8; 275] = [
    0, 1, 0, 0, 0, 0, 0, 1, 2, 1 + 2, 0, 0, 0, 0, 0, 0,
    0, 0, 0, 0, 0, 0, 0, 0, 0, 0, 0, 0, 0, 0, 0, 0,
    0, 0, 0, 0, 0, 0, 0, 0, 0, 0, 0, 1, 2, 1 + 2, 0, 0,
    0, 0, 0, 0, 0, 0, 0, 0, 0, 0, 0, 1, 0, 0, 0, 1,
    2, 1 + 2, 0, 1, 2, 1 + 2, 0, 0, 0, 0, 0, 0, 0, 0, 0, 0,
    0, 0, 0, 0, 0, 0, 0, 0, 0, 0, 0, 0, 0, 0, 0, 0,
    0, 0, 0, 0, 0, 0, 0, 0, 0, 0, 0, 0, 0, 0, 0, 0,
    0, 0, 0, 0, 0, 0, 0, 0, 0, 0, 0, 0, 0, 0, 0, 0,
    0, 0, 0, 0, 0, 0, 0, 0, 0, 0, 0, 0, 0, 0, 0, 0,
    0, 0, 0, 0, 0, 0, 0, 0, 0, 0, 0, 0, 0, 0, 0, 0,
    0, 0, 0, 0, 0, 0, 0, 0, 0, 0, 0, 0, 0, 1, 2, 1 + 2,
    0, 0, 0, 0, 0, 0, 0, 0, 0, 0, 0, 0, 0, 0, 0, 0,
    0, 0, 0, 0, 0, 0, 0, 0, 0, 0, 0, 0, 0, 0, 0, 0,
    0, 0, 0, 0, 0, 0, 0, 0, 0, 0, 0, 0, 0, 0, 0, 0,
    0, 0, 0, 0, 0, 0, 0, 0, 0, 0, 0, 0, 0, 0, 0, 0,
    0, 0, 0, 0, 0, 0, 0, 0, 0, 0, 0, 0, 0, 0, 0, 0,
    0, 0, 0, 0, 0, 0, 0, 0, 0, 0, 0, 0, 0, 0, 4, 4,
    4, 4, 4,
];

/// The link value of each unit of the Presentation Forms-B block, indexed from 0xFE70.
pub const PRES_BLINK: [u8; 144] = [
    1 + 2, 1 + 2, 1 + 2, 0, 1 + 2, 0, 1 + 2, 1 + 2, 1 + 2, 1 + 2, 1 + 2, 1 + 2, 1 + 2, 1 + 2, 1 + 2, 1 + 2,
    0, 0, 1, 0, 1, 0, 1, 0, 1, 0, 1, 2, 1 + 2, 0, 1, 0,
    1, 2, 1 + 2, 0, 1, 0, 1, 2, 1 + 2, 0, 1, 2, 1 + 2, 0, 1, 2,
    1 + 2, 0, 1, 2, 1 + 2, 0, 1, 2, 1 + 2, 0, 1, 0, 1, 0, 1, 0,
    1, 0, 1, 2, 1 + 2, 0, 1, 2, 1 + 2, 0, 1, 2, 1 + 2, 0, 1, 2,
    1 + 2, 0, 1, 2, 1 + 2, 0, 1, 2, 1 + 2, 0, 1, 2, 1 + 2, 0, 1, 2,
    1 + 2, 0, 1, 2, 1 + 2, 0, 1, 2, 1 + 2, 0, 1, 2, 1 + 2, 0, 1, 2,
    1 + 2, 0, 1, 2, 1 + 2, 0, 1, 2, 1 + 2, 0, 1, 2, 1 + 2, 0, 1, 0,
    1, 0, 1, 2, 1 + 2, 0, 1, 0, 1, 0, 1, 0, 1, 0, 0, 0,
];

/// The abstract character of each Presentation Forms-A unit, indexed from 0xFB50.
pub const CONVERT_FBTO06: [u16; 176] = [
    0x671, 0x671, 0x67B, 0x67B, 0x67B, 0x67B, 0x67E, 0x67E, 0x67E, 0x67E, 0, 0, 0, 0, 0x67A, 0x67A,
    0x67A, 0x67A, 0, 0, 0, 0, 0x679, 0x679, 0x679, 0x679, 0, 0, 0, 0, 0, 0,
    0, 0, 0, 0, 0, 0, 0, 0, 0, 0, 0x686, 0x686, 0x686, 0x686, 0, 0,
    0, 0, 0x68D, 0x68D, 0x68C, 0x68C, 0x68E, 0x68E, 0x688, 0x688, 0x698, 0x698, 0x691, 0x691, 0x6A9, 0x6A9,
    0x6A9, 0x6A9, 0x6AF, 0x6AF, 0x6AF, 0x6AF, 0, 0, 0, 0, 0, 0, 0, 0, 0x6BA, 0x6BA,
    0x6BB, 0x6BB, 0x6BB, 0x6BB, 0x6C0, 0x6C0, 0x6C1, 0x6C1, 0x6C1, 0x6C1, 0x6BE, 0x6BE, 0x6BE, 0x6BE, 0x6d2, 0x6D2,
    0x6D3, 0x6D3, 0, 0, 0, 0, 0, 0, 0, 0, 0, 0, 0, 0, 0, 0,
    0, 0, 0, 0, 0, 0, 0, 0, 0, 0, 0, 0, 0, 0, 0, 0,
    0, 0, 0, 0, 0, 0, 0, 0x6C7, 0x6C7, 0x6C6, 0x6C6, 0x6C8, 0x6C8, 0, 0x6CB, 0x6CB,
    0x6C5, 0x6C5, 0x6C9, 0x6C9, 0x6D0, 0x6D0, 0x6D0, 0x6D0, 0, 0, 0, 0, 0, 0, 0, 0,
    0, 0, 0, 0, 0, 0, 0, 0, 0, 0, 0, 0, 0x6CC, 0x6CC, 0x6CC, 0x6CC,
];

/// The abstract character of each Presentation Forms-B unit, indexed from 0xFE70.
pub const CONVERT_FETO06: [u16; 141] = [
    0x64B, 0x64B, 0x64C, 0x64C, 0x64D, 0x64D, 0x64E, 0x64E, 0x64F, 0x64F, 0x650, 0x650, 0x651, 0x651, 0x652, 0x652,
    0x621, 0x622, 0x622, 0x623, 0x623, 0x624, 0x624, 0x625, 0x625, 0x626, 0x626, 0x626, 0x626, 0x627, 0x627, 0x628,
    0x628, 0x628, 0x628, 0x629, 0x629, 0x62A, 0x62A, 0x62A, 0x62A, 0x62B, 0x62B, 0x62B, 0x62B, 0x62C, 0x62C, 0x62C,
    0x62C, 0x62D, 0x62D, 0x62D, 0x62D, 0x62E, 0x62E, 0x62E, 0x62E, 0x62F, 0x62F, 0x630, 0x630, 0x631, 0x631, 0x632,
    0x632, 0x633, 0x633, 0x633, 0x633, 0x634, 0x634, 0x634, 0x634, 0x635, 0x635, 0x635, 0x635, 0x636, 0x636, 0x636,
    0x636, 0x637, 0x637, 0x637, 0x637, 0x638, 0x638, 0x638, 0x638, 0x639, 0x639, 0x639, 0x639, 0x63A, 0x63A, 0x63A,
    0x63A, 0x641, 0x641, 0x641, 0x641, 0x642, 0x642, 0x642, 0x642, 0x643, 0x643, 0x643, 0x643, 0x644, 0x644, 0x644,
    0x644, 0x645, 0x645, 0x645, 0x645, 0x646, 0x646, 0x646, 0x646, 0x647, 0x647, 0x647, 0x647, 0x648, 0x648, 0x649,
    0x649, 0x64A, 0x64A, 0x64A, 0x64A, 0x65C, 0x65C, 0x65D, 0x65D, 0x65E, 0x65E, 0x65F, 0x65F,
];

/// The presentation-form offset of each tashkeel character, indexed from 0x064B.
pub const IRRELEVANT_POS: [u8; 8] = [
    0x0, 0x2, 0x4, 0x6, 0x8, 0xA, 0xC, 0xE,
];

/// The shape selected by the joining bits of the next, previous and
/// current link values: entry `16 * next + 4 * previous + current`, each
/// index masked to its two joining bits, is the form (0 isolated, 1 final,
/// 2 initial, 3 medial).
pub const SHAPE_TABLE: [u8; 64] = [
    0, 0, 0, 0, 0, 0, 0, 0, 0, 1, 0, 3, 0, 1, 0, 1,
    0, 0, 2, 2, 0, 0, 1, 2, 0, 1, 1, 2, 0, 1, 1, 3,
    0, 0, 0, 0, 0, 0, 0, 0, 0, 1, 0, 3, 0, 1, 0, 3,
    0, 0, 1, 2, 0, 0, 1, 2, 0, 1, 1, 2, 0, 1, 1, 3,
];

} // verus!
