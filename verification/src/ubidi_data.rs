//! The static range tables of the bidirectional classifier: the mirrored
//! glyph pairs and the right-to-left, neutral and weak character ranges.
//! Each table is a pair of parallel arrays; entry `k` of a range table is
//! the closed range `LO[k] ..= HI[k]`.

use vstd::prelude::*;

verus! {

/// Characters with a mirror partner, paired index by index with `MIRROR_TO`.
pub const MIRROR_FROM: [u16; 48] = [
    40, 41, 60, 62, 91, 93, 123, 125,
    171, 187, 8725, 8735, 8736, 8737, 8738, 8740,
    8771, 8773, 8780, 8856, 8870, 8872, 8873, 8875,
    8888, 8909, 8946, 8947, 8948, 8950, 8951, 8954,
    8955, 8956, 8957, 8958, 10204, 10651, 10656, 10659,
    10680, 10741, 10974, 10979, 10980, 10981, 10990, 11262,
];

/// The mirror partner of the character at the same index of `MIRROR_FROM`.
pub const MIRROR_TO: [u16; 48] = [
    41, 40, 62, 60, 93, 91, 125, 123,
    187, 171, 10741, 11262, 10659, 10651, 10656, 10990,
    8909, 8780, 8773, 10680, 10974, 10980, 10979, 10981,
    10204, 8771, 8954, 8955, 8956, 8957, 8958, 8946,
    8947, 8948, 8950, 8951, 8888, 8737, 8738, 8736,
    8856, 8725, 8870, 8873, 8872, 8875, 8740, 8735,
];

/// Lower bounds of the ranges of unambiguously right-to-left characters.
pub const RTL_RANGE_LO: [u16; 45] = [
    0x05BE, 0x05C0, 0x05C3, 0x05C6, 0x05D0, 0x05F0, 0x0608, 0x060B,
    0x060D, 0x061B, 0x061E, 0x066D, 0x0671, 0x06E5, 0x06EE, 0x06FA,
    0x0710, 0x0712, 0x074D, 0x07B1, 0x07C0, 0x07F4, 0x07FA, 0x0800,
    0x081A, 0x0824, 0x0828, 0x0830, 0x0840, 0x085E, 0x200F, 0xFB1D,
    0xFB1F, 0xFB2A, 0xFB38, 0xFB3E, 0xFB40, 0xFB43, 0xFB46, 0xFBD3,
    0xFD50, 0xFD92, 0xFDF0, 0xFE70, 0xFE76,
];

/// Upper bounds of the ranges of unambiguously right-to-left characters.
pub const RTL_RANGE_HI: [u16; 45] = [
    0x05BE, 0x05C0, 0x05C3, 0x05C6, 0x05EA, 0x05F4, 0x0608, 0x060B,
    0x060D, 0x061B, 0x064A, 0x066F, 0x06D5, 0x06E6, 0x06EF, 0x070D,
    0x0710, 0x072F, 0x07A5, 0x07B1, 0x07EA, 0x07F5, 0x07FA, 0x0815,
    0x081A, 0x0824, 0x0828, 0x083E, 0x0858, 0x085E, 0x200F, 0xFB1D,
    0xFB28, 0xFB36, 0xFB3C, 0xFB3E, 0xFB41, 0xFB44, 0xFBC1, 0xFD3D,
    0xFD8F, 0xFDC7, 0xFDFC, 0xFE74, 0xFEFC,
];

/// Lower bounds of the ranges of characters with no inherent direction.
pub const NEUTRAL_RANGE_LO: [u16; 137] = [
    0x0009, 0x001C, 0x0026, 0x003B, 0x005B, 0x007B, 0x0085, 0x00A1,
    0x00A6, 0x00AB, 0x00AE, 0x00B4, 0x00B6, 0x00BB, 0x00D7, 0x00F7,
    0x02B9, 0x02C2, 0x02D2, 0x02E5, 0x02EF, 0x0374, 0x037E, 0x0384,
    0x0387, 0x03F6, 0x058A, 0x0606, 0x060E, 0x06DE, 0x06E9, 0x07F6,
    0x0BF3, 0x0BFA, 0x0C78, 0x0F3A, 0x1390, 0x1400, 0x1680, 0x169B,
    0x17F0, 0x1800, 0x180E, 0x1940, 0x1944, 0x19DE, 0x1FBD, 0x1FBF,
    0x1FCD, 0x1FDD, 0x1FED, 0x1FFD, 0x2000, 0x2010, 0x2035, 0x2045,
    0x207C, 0x208C, 0x2100, 0x2103, 0x2108, 0x2114, 0x2116, 0x211E,
    0x2125, 0x2127, 0x2129, 0x213A, 0x2140, 0x214A, 0x2150, 0x2189,
    0x2190, 0x2214, 0x237B, 0x2396, 0x2400, 0x2440, 0x2460, 0x24EA,
    0x26AD, 0x2701, 0x27CC, 0x27CE, 0x2900, 0x2B50, 0x2CE5, 0x2CF9,
    0x2E00, 0x2E80, 0x2E9B, 0x2F00, 0x2FF0, 0x3000, 0x3008, 0x3030,
    0x3036, 0x303D, 0x309B, 0x30A0, 0x30FB, 0x31C0, 0x321D, 0x3250,
    0x327C, 0x32B1, 0x32CC, 0x3377, 0x33DE, 0x33FF, 0x4DC0, 0xA490,
    0xA60D, 0xA673, 0xA67E, 0xA700, 0xA788, 0xA828, 0xA874, 0xFD3E,
    0xFDFD, 0xFE10, 0xFE30, 0xFE51, 0xFE54, 0xFE56, 0xFE60, 0xFE64,
    0xFE68, 0xFE6B, 0xFF01, 0xFF06, 0xFF1B, 0xFF3B, 0xFF5B, 0xFFE2,
    0xFFE8,
];

/// Upper bounds of the ranges of characters with no inherent direction.
pub const NEUTRAL_RANGE_HI: [u16; 137] = [
    0x000D, 0x0022, 0x002A, 0x0040, 0x0060, 0x007E, 0x0085, 0x00A1,
    0x00A9, 0x00AC, 0x00AF, 0x00B4, 0x00B8, 0x00BF, 0x00D7, 0x00F7,
    0x02BA, 0x02CF, 0x02DF, 0x02ED, 0x02FF, 0x0375, 0x037E, 0x0385,
    0x0387, 0x03F6, 0x058A, 0x0607, 0x060F, 0x06DE, 0x06E9, 0x07F9,
    0x0BF8, 0x0BFA, 0x0C7E, 0x0F3D, 0x1399, 0x1400, 0x1680, 0x169C,
    0x17F9, 0x180A, 0x180E, 0x1940, 0x1945, 0x19FF, 0x1FBD, 0x1FC1,
    0x1FCF, 0x1FDF, 0x1FEF, 0x1FFE, 0x200A, 0x202E, 0x2043, 0x205F,
    0x207E, 0x208E, 0x2101, 0x2106, 0x2109, 0x2114, 0x2118, 0x2123,
    0x2125, 0x2127, 0x2129, 0x213B, 0x2144, 0x214D, 0x215F, 0x2189,
    0x2211, 0x2335, 0x2394, 0x23F3, 0x2426, 0x244A, 0x2487, 0x26AB,
    0x26FF, 0x27CA, 0x27CC, 0x27FF, 0x2B4C, 0x2B59, 0x2CEA, 0x2CFF,
    0x2E31, 0x2E99, 0x2EF3, 0x2FD5, 0x2FFB, 0x3004, 0x3020, 0x3030,
    0x3037, 0x303F, 0x309C, 0x30A0, 0x30FB, 0x31E3, 0x321E, 0x325F,
    0x327E, 0x32BF, 0x32CF, 0x337A, 0x33DF, 0x33FF, 0x4DFF, 0xA4C6,
    0xA60F, 0xA673, 0xA67F, 0xA721, 0xA788, 0xA82B, 0xA877, 0xFD3F,
    0xFDFD, 0xFE19, 0xFE4F, 0xFE51, 0xFE54, 0xFE5E, 0xFE61, 0xFE66,
    0xFE68, 0xFE6B, 0xFF02, 0xFF0A, 0xFF20, 0xFF40, 0xFF65, 0xFFE4,
    0xFFEE,
];

/// Lower bounds of the ranges of weakly directional characters.
pub const WEAK_RANGE_LO: [u16; 228] = [
    0x0000, 0x000E, 0x0023, 0x002B, 0x007F, 0x0086, 0x00A2, 0x00AD,
    0x00B0, 0x00B9, 0x0300, 0x0483, 0x0591, 0x05BF, 0x05C1, 0x05C4,
    0x05C7, 0x0600, 0x0609, 0x060C, 0x0610, 0x064B, 0x0670, 0x06D6,
    0x06DF, 0x06E7, 0x06EA, 0x06F0, 0x070F, 0x0711, 0x0730, 0x07A6,
    0x07EB, 0x0816, 0x081B, 0x0825, 0x0829, 0x0859, 0x0900, 0x093A,
    0x093C, 0x0941, 0x094D, 0x0951, 0x0962, 0x0981, 0x09BC, 0x09C1,
    0x09CD, 0x09E2, 0x09F2, 0x09FB, 0x0A01, 0x0A3C, 0x0A41, 0x0A47,
    0x0A4B, 0x0A51, 0x0A70, 0x0A75, 0x0A81, 0x0ABC, 0x0AC1, 0x0AC7,
    0x0ACD, 0x0AE2, 0x0AF1, 0x0B01, 0x0B3C, 0x0B3F, 0x0B41, 0x0B4D,
    0x0B56, 0x0B62, 0x0B82, 0x0BC0, 0x0BCD, 0x0BF9, 0x0C3E, 0x0C46,
    0x0C4A, 0x0C55, 0x0C62, 0x0CBC, 0x0CCC, 0x0CE2, 0x0D41, 0x0D4D,
    0x0D62, 0x0DCA, 0x0DD2, 0x0DD6, 0x0E31, 0x0E34, 0x0E3F, 0x0E47,
    0x0EB1, 0x0EB4, 0x0EBB, 0x0EC8, 0x0F18, 0x0F35, 0x0F37, 0x0F39,
    0x0F71, 0x0F80, 0x0F86, 0x0F8D, 0x0F99, 0x0FC6, 0x102D, 0x1032,
    0x1039, 0x103D, 0x1058, 0x105E, 0x1071, 0x1082, 0x1085, 0x108D,
    0x109D, 0x135D, 0x1712, 0x1732, 0x1752, 0x1772, 0x17B7, 0x17C6,
    0x17C9, 0x17DB, 0x17DD, 0x180B, 0x18A9, 0x1920, 0x1927, 0x1932,
    0x1939, 0x1A17, 0x1A56, 0x1A58, 0x1A60, 0x1A62, 0x1A65, 0x1A73,
    0x1A7F, 0x1B00, 0x1B34, 0x1B36, 0x1B3C, 0x1B42, 0x1B6B, 0x1B80,
    0x1BA2, 0x1BA8, 0x1BE6, 0x1BE8, 0x1BED, 0x1BEF, 0x1C2C, 0x1C36,
    0x1CD0, 0x1CD4, 0x1CE2, 0x1CED, 0x1DC0, 0x1DFC, 0x200B, 0x202F,
    0x2044, 0x2060, 0x206A, 0x2074, 0x2080, 0x20A0, 0x20D0, 0x212E,
    0x2212, 0x2488, 0x2CEF, 0x2D7F, 0x2DE0, 0x302A, 0x3099, 0xA66F,
    0xA67C, 0xA6F0, 0xA802, 0xA806, 0xA80B, 0xA825, 0xA838, 0xA8C4,
    0xA8E0, 0xA926, 0xA947, 0xA980, 0xA9B3, 0xA9B6, 0xA9BC, 0xA9BC,
    0xAA29, 0xAA31, 0xAA35, 0xAA43, 0xAA4C, 0xAAB0, 0xAAB2, 0xAAB7,
    0xAABE, 0xAAC1, 0xABE5, 0xABE8, 0xABED, 0xFB1E, 0xFB29, 0xFE00,
    0xFE20, 0xFE50, 0xFE52, 0xFE55, 0xFE5F, 0xFE62, 0xFE69, 0xFEFF,
    0xFF03, 0xFF0B, 0xFFE0, 0xFFE5,
];

/// Upper bounds of the ranges of weakly directional characters.
pub const WEAK_RANGE_HI: [u16; 228] = [
    0x0008, 0x001B, 0x0025, 0x003A, 0x0084, 0x00A0, 0x00A5, 0x00AD,
    0x00B3, 0x00B9, 0x036F, 0x0489, 0x05BD, 0x05BF, 0x05C2, 0x05C5,
    0x05C7, 0x0603, 0x060A, 0x060C, 0x061A, 0x066C, 0x0670, 0x06DD,
    0x06E4, 0x06E8, 0x06ED, 0x06F9, 0x070F, 0x0711, 0x074A, 0x07B0,
    0x07F3, 0x0819, 0x0823, 0x0827, 0x082D, 0x085B, 0x0902, 0x093A,
    0x093C, 0x0948, 0x094D, 0x0957, 0x0963, 0x0981, 0x09BC, 0x09C4,
    0x09CD, 0x09E3, 0x09F3, 0x09FB, 0x0A02, 0x0A3C, 0x0A42, 0x0A48,
    0x0A4D, 0x0A51, 0x0A71, 0x0A75, 0x0A82, 0x0ABC, 0x0AC5, 0x0AC8,
    0x0ACD, 0x0AE3, 0x0AF1, 0x0B01, 0x0B3C, 0x0B3F, 0x0B44, 0x0B4D,
    0x0B56, 0x0B63, 0x0B82, 0x0BC0, 0x0BCD, 0x0BF9, 0x0C40, 0x0C48,
    0x0C4D, 0x0C56, 0x0C63, 0x0CBC, 0x0CCD, 0x0CE3, 0x0D44, 0x0D4D,
    0x0D63, 0x0DCA, 0x0DD4, 0x0DD6, 0x0E31, 0x0E3A, 0x0E3F, 0x0E4E,
    0x0EB1, 0x0EB9, 0x0EBC, 0x0ECD, 0x0F19, 0x0F35, 0x0F37, 0x0F39,
    0x0F7E, 0x0F84, 0x0F87, 0x0F97, 0x0FBC, 0x0FC6, 0x1030, 0x1037,
    0x103A, 0x103E, 0x1059, 0x1060, 0x1074, 0x1082, 0x1086, 0x108D,
    0x109D, 0x135F, 0x1714, 0x1734, 0x1753, 0x1773, 0x17BD, 0x17C6,
    0x17D3, 0x17DB, 0x17DD, 0x180D, 0x18A9, 0x1922, 0x1928, 0x1932,
    0x193B, 0x1A18, 0x1A56, 0x1A5E, 0x1A60, 0x1A62, 0x1A6C, 0x1A7C,
    0x1A7F, 0x1B03, 0x1B34, 0x1B3A, 0x1B3C, 0x1B42, 0x1B73, 0x1B81,
    0x1BA5, 0x1BA9, 0x1BE6, 0x1BE9, 0x1BED, 0x1BF1, 0x1C33, 0x1C37,
    0x1CD2, 0x1CE0, 0x1CE8, 0x1CED, 0x1DE6, 0x1DFF, 0x200D, 0x2034,
    0x2044, 0x2064, 0x2070, 0x207B, 0x208B, 0x20B9, 0x20F0, 0x212E,
    0x2213, 0x249B, 0x2CF1, 0x2D7F, 0x2DFF, 0x302F, 0x309A, 0xA672,
    0xA67D, 0xA6F1, 0xA802, 0xA806, 0xA80B, 0xA826, 0xA839, 0xA8C4,
    0xA8F1, 0xA92D, 0xA951, 0xA982, 0xA9B3, 0xA9B9, 0xA9BC, 0xA9BC,
    0xAA2E, 0xAA32, 0xAA36, 0xAA43, 0xAA4C, 0xAAB0, 0xAAB4, 0xAAB8,
    0xAABF, 0xAAC1, 0xABE5, 0xABE8, 0xABED, 0xFB1E, 0xFB29, 0xFE0F,
    0xFE26, 0xFE50, 0xFE52, 0xFE55, 0xFE5F, 0xFE63, 0xFE6A, 0xFEFF,
    0xFF05, 0xFF1A, 0xFFE1, 0xFFE6,
];

} // verus!
