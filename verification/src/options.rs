//! Option bitmask fields for the shaping entry point, together with the
//! special code-unit values that the Arabic shaper works with.

use vstd::prelude::*;

verus! {

/// Whether `c` is one of the space-like characters that end a cluster:
/// space, tab, line feed, carriage return, form feed, next line,
/// ideographic space, zero-width space, no-break space, the Tibetan
/// delimiter tsheg bstar, narrow no-break space, word joiner, or the
/// zero-width no-break space.
pub open spec fn spec_is_whitespace(c: u16) -> bool {
    c == 0x0020 || c == 0x0009 || c == 0x000A || c == 0x000D || c == 0x000C || c == 0x0085 || c
        == 0x3000 || c == 0x200B || c == 0x00A0 || c == 0x0F0C || c == 0x202F || c == 0x2060 || c
        == 0xFEFF
}

/// Check whether a character is one of the cluster-ending space characters.
pub fn is_whitespace(c: u16) -> (r: bool)
    ensures
        r == spec_is_whitespace(c),
{
    c == 0x0020 || c == 0x0009 || c == 0x000A || c == 0x000D || c == 0x000C || c == 0x0085 || c
        == 0x3000 || c == 0x200B || c == 0x00A0 || c == 0x0F0C || c == 0x202F || c == 0x2060 || c
        == 0xFEFF
}

// Arabic link-value bits.

/// Link bit: transparent to joining (diacritics, format controls).
pub const IRRELEVANT: u16 = 4;
/// Link bit: the character is a Lam.
pub const LAMTYPE: u16 = 16;
/// Link bit: the character is an Alef.
pub const ALEFTYPE: u16 = 32;
/// Link bit: joins to the right neighbour.
pub const LINKR: u16 = 1;
/// Link bit: joins to the left neighbour.
pub const LINKL: u16 = 2;
/// Link bit: a presentation form in the Arabic Presentation Forms-A block exists.
pub const APRESENT: u16 = 8;
/// Link bit: the shadda diacritic.
pub const SHADDA: u16 = 64;
/// Link bit: a diacritic that combines with shadda.
pub const CSHADDA: u16 = 128;
/// Both combining-mark bits together.
pub const COMBINE: u16 = 64 + 128;

/// Isolated hamza presentation form.
pub const HAMZAFE_CHAR: u16 = 0xFE80;
/// Hamza in the base Arabic block.
pub const HAMZA06_CHAR: u16 = 0x0621;
/// Yeh with hamza above in the base Arabic block.
pub const YEH_HAMZA_CHAR: u16 = 0x0626;
/// Isolated yeh-with-hamza presentation form.
pub const YEH_HAMZAFE_CHAR: u16 = 0xFE89;
/// Buffer-internal substitute for the space freed by a Lam-Alef ligature.
pub const LAMALEF_SPACE_SUB: u16 = 0xFFFF;
/// Buffer-internal substitute for a removed tashkeel character.
pub const TASHKEEL_SPACE_SUB: u16 = 0xFFFE;
/// The Unicode tail character.
pub const NEW_TAIL_CHAR: u16 = 0xFE73;
/// The older, unofficial tail character.
pub const OLD_TAIL_CHAR: u16 = 0x200B;
/// Lam in the base Arabic block.
pub const LAM_CHAR: u16 = 0x0644;
/// Plain space.
pub const SPACE_CHAR: u16 = 0x0020;
/// Isolated shadda presentation form.
pub const SHADDA_CHAR: u16 = 0xFE7C;
/// Tatweel (the elongation filler).
pub const TATWEEL_CHAR: u16 = 0x0640;
/// Shadda-on-tatweel presentation form.
pub const SHADDA_TATWEEL_CHAR: u16 = 0xFE7D;
/// Shadda in the base Arabic block.
pub const SHADDA06_CHAR: u16 = 0x0651;

// Memory options for the Lam-Alef ligature.

/// Memory option: the result may differ in length from the source.
pub const U_SHAPE_LENGTH_GROW_SHRINK: u32 = 0;
/// Alias of `U_SHAPE_LENGTH_GROW_SHRINK`.
pub const U_SHAPE_LAMALEF_RESIZE: u32 = 0;
/// Memory option: keep the length, consuming spaces next to modified characters.
pub const U_SHAPE_LENGTH_FIXED_SPACES_NEAR: u32 = 1;
/// Alias of `U_SHAPE_LENGTH_FIXED_SPACES_NEAR`.
pub const U_SHAPE_LAMALEF_NEAR: u32 = 1;
/// Memory option: keep the length, consuming spaces at the end of the text.
pub const U_SHAPE_LENGTH_FIXED_SPACES_AT_END: u32 = 2;
/// Alias of `U_SHAPE_LENGTH_FIXED_SPACES_AT_END`.
pub const U_SHAPE_LAMALEF_END: u32 = 2;
/// Memory option: keep the length, consuming spaces at the beginning of the text.
pub const U_SHAPE_LENGTH_FIXED_SPACES_AT_BEGINNING: u32 = 3;
/// Alias of `U_SHAPE_LENGTH_FIXED_SPACES_AT_BEGINNING`.
pub const U_SHAPE_LAMALEF_BEGIN: u32 = 3;
/// Memory option: consume a space at the end, else at the beginning, else nearby.
pub const U_SHAPE_LAMALEF_AUTO: u32 = 0x10000;
/// Bit mask for the length memory options.
pub const U_SHAPE_LENGTH_MASK: u32 = 0x10003;
/// Bit mask for the Lam-Alef memory options.
pub const U_SHAPE_LAMALEF_MASK: u32 = 0x10003;

// Text direction options.

/// Direction indicator: the source is in logical (keyboard) order.
pub const U_SHAPE_TEXT_DIRECTION_LOGICAL: u32 = 0;
/// Alias of `U_SHAPE_TEXT_DIRECTION_LOGICAL`.
pub const U_SHAPE_TEXT_DIRECTION_VISUAL_RTL: u32 = 0;
/// Direction indicator: the source is in visual left-to-right order.
pub const U_SHAPE_TEXT_DIRECTION_VISUAL_LTR: u32 = 4;
/// Bit mask asking for bidirectional reordering of the shaped output.
pub const U_SHAPE_DIRECTION_OUTPUT_BIDI: u32 = 0x100000;
/// Bit mask for the direction indicators.
pub const U_SHAPE_TEXT_DIRECTION_MASK: u32 = 4;

// Letter shaping options.

/// Letter shaping option: do not shape letters.
pub const U_SHAPE_LETTERS_NOOP: u32 = 0;
/// Letter shaping option: replace abstract letters by shaped ones.
pub const U_SHAPE_LETTERS_SHAPE: u32 = 8;
/// Letter shaping option: replace shaped letters by abstract ones.
pub const U_SHAPE_LETTERS_UNSHAPE: u32 = 0x10;
/// Letter shaping option: shape letters, keeping tashkeel isolated.
pub const U_SHAPE_LETTERS_SHAPE_TASHKEEL_ISOLATED: u32 = 0x18;
/// Bit mask for the letter shaping options.
pub const U_SHAPE_LETTERS_MASK: u32 = 0x18;

// Digit shaping options (reserved in this core; no engine reads them).

/// Digit shaping option: do not shape digits.
pub const U_SHAPE_DIGITS_NOOP: u32 = 0;
/// Digit shaping option: European digits to Arabic-Indic digits.
pub const U_SHAPE_DIGITS_EN2AN: u32 = 0x20;
/// Digit shaping option: Arabic-Indic digits to European digits.
pub const U_SHAPE_DIGITS_AN2EN: u32 = 0x40;
/// Digit shaping option: European to Arabic-Indic after Arabic letters, initial state LR.
pub const U_SHAPE_DIGITS_ALEN2AN_INIT_LR: u32 = 0x60;
/// Digit shaping option: European to Arabic-Indic after Arabic letters, initial state AL.
pub const U_SHAPE_DIGITS_ALEN2AN_INIT_AL: u32 = 0x80;
/// Reserved digit shaping value.
pub const U_SHAPE_DIGITS_RESERVED: u32 = 0xA0;
/// Bit mask for the digit shaping options.
pub const U_SHAPE_DIGITS_MASK: u32 = 0xE0;
/// Digit type option: Arabic-Indic digits.
pub const U_SHAPE_DIGIT_TYPE_AN: u32 = 0;
/// Digit type option: Eastern Arabic-Indic digits.
pub const U_SHAPE_DIGIT_TYPE_AN_EXTENDED: u32 = 0x100;
/// Reserved digit type value.
pub const U_SHAPE_DIGIT_TYPE_RESERVED: u32 = 0x200;
/// Bit mask for the digit type options.
pub const U_SHAPE_DIGIT_TYPE_MASK: u32 = 0x300;

// Tashkeel aggregation options.

/// Combine shadda with a following vowel diacritic into one presentation form.
pub const U_SHAPE_AGGREGATE_TASHKEEL: u32 = 0x4000;
/// Do not aggregate tashkeel.
pub const U_SHAPE_AGGREGATE_TASHKEEL_NOOP: u32 = 0;
/// Bit mask for tashkeel aggregation.
pub const U_SHAPE_AGGREGATE_TASHKEEL_MASK: u32 = 0x4000;

// Presentation form options.

/// Keep presentation-form characters as they are before shaping.
pub const U_SHAPE_PRESERVE_PRESENTATION: u32 = 0x8000;
/// Replace presentation forms by their abstract characters before shaping.
pub const U_SHAPE_PRESERVE_PRESENTATION_NOOP: u32 = 0;
/// Bit mask for the preserve-presentation option.
pub const U_SHAPE_PRESERVE_PRESENTATION_MASK: u32 = 0x8000;

// Seen and YehHamza options (defined for compatibility; no engine reads them).

/// Seen family characters expand into two cells using a nearby space.
pub const U_SHAPE_SEEN_TWOCELL_NEAR: u32 = 0x200000;
/// Bit mask for the Seen memory options.
pub const U_SHAPE_SEEN_MASK: u32 = 0x700000;
/// YehHamza expands into two cells using a nearby space.
pub const U_SHAPE_YEHHAMZA_TWOCELL_NEAR: u32 = 0x1000000;
/// Bit mask for the YehHamza memory options.
pub const U_SHAPE_YEHHAMZA_MASK: u32 = 0x3800000;

// Tashkeel memory options.

/// Replace tashkeel by spaces placed at the beginning of the buffer.
pub const U_SHAPE_TASHKEEL_BEGIN: u32 = 0x40000;
/// Replace tashkeel by spaces placed at the end of the buffer.
pub const U_SHAPE_TASHKEEL_END: u32 = 0x60000;
/// Remove tashkeel, shrinking the buffer.
pub const U_SHAPE_TASHKEEL_RESIZE: u32 = 0x80000;
/// Replace tashkeel by tatweel where connected, else by a space.
pub const U_SHAPE_TASHKEEL_REPLACE_BY_TATWEEL: u32 = 0xC0000;
/// Bit mask for the tashkeel memory options.
pub const U_SHAPE_TASHKEEL_MASK: u32 = 0xE0000;

// Space location control.

/// Swap the meaning of begin and end for visual left-to-right text.
pub const U_SHAPE_SPACES_RELATIVE_TO_TEXT_BEGIN_END: u32 = 0x4000000;
/// Bit mask for the space location control option.
pub const U_SHAPE_SPACES_RELATIVE_TO_TEXT_MASK: u32 = 0x4000000;

/// Use the official Unicode tail character instead of the older one.
pub const U_SHAPE_TAIL_NEW_UNICODE: u32 = 0x8000000;
/// Bit mask for the tail character option.
pub const U_SHAPE_TAIL_TYPE_MASK: u32 = 0x8000000;

/// The per-call parameters of the Arabic shaper that depend on the space
/// location and tail options.
pub struct UShapeVariables {
    /// The tail character to use for Seen-family expansion.
    pub tail_char: u16,
    /// Which Lam-Alef option means "spaces at the beginning".
    pub u_shape_lamalef_begin: u32,
    /// Which Lam-Alef option means "spaces at the end".
    pub u_shape_lamalef_end: u32,
    /// Which tashkeel option means "spaces at the beginning".
    pub u_shape_tashkeel_begin: u32,
    /// Which tashkeel option means "spaces at the end".
    pub u_shape_tashkeel_end: u32,
    /// Whether begin and end are relative to the text rather than the buffer.
    pub spaces_relative_to_text_begin_end: i32,
}

impl UShapeVariables {
    /// Build a parameter set from the given fields.
    pub fn new(t: u16, lb: u32, le: u32, tb: u32, te: u32, sr: i32) -> (r: UShapeVariables)
        ensures
            r.tail_char == t,
            r.u_shape_lamalef_begin == lb,
            r.u_shape_lamalef_end == le,
            r.u_shape_tashkeel_begin == tb,
            r.u_shape_tashkeel_end == te,
            r.spaces_relative_to_text_begin_end == sr,
    {
        UShapeVariables {
            tail_char: t,
            u_shape_lamalef_begin: lb,
            u_shape_lamalef_end: le,
            u_shape_tashkeel_begin: tb,
            u_shape_tashkeel_end: te,
            spaces_relative_to_text_begin_end: sr,
        }
    }

    /// The default parameter set: the new tail character, begin and end
    /// relative to the buffer.
    pub fn base() -> (r: UShapeVariables)
        ensures
            r.tail_char == NEW_TAIL_CHAR,
            r.u_shape_lamalef_begin == U_SHAPE_LAMALEF_BEGIN,
            r.u_shape_lamalef_end == U_SHAPE_LAMALEF_END,
            r.u_shape_tashkeel_begin == U_SHAPE_TASHKEEL_BEGIN,
            r.u_shape_tashkeel_end == U_SHAPE_TASHKEEL_END,
            r.spaces_relative_to_text_begin_end == 0,
    {
        UShapeVariables {
            tail_char: NEW_TAIL_CHAR,
            u_shape_lamalef_begin: U_SHAPE_LAMALEF_BEGIN,
            u_shape_lamalef_end: U_SHAPE_LAMALEF_END,
            u_shape_tashkeel_begin: U_SHAPE_TASHKEEL_BEGIN,
            u_shape_tashkeel_end: U_SHAPE_TASHKEEL_END,
            spaces_relative_to_text_begin_end: 0,
        }
    }
}

} // verus!
