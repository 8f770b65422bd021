//! The Arabic contextual shaping engine: link-table-driven selection of
//! the isolated, initial, medial and final presentation forms, Lam-Alef
//! ligature composition, and tashkeel handling.

use vstd::prelude::*;
use crate::arabic_data::ARA_LINK;
use crate::arabic_data::IRRELEVANT_POS;
use crate::arabic_data::PRES_ALINK;
use crate::arabic_data::PRES_BLINK;
use crate::arabic_data::SHAPE_TABLE;
use crate::arabic_data::TASHKEEL_MEDIAL;
use crate::options::ALEFTYPE;
use crate::options::APRESENT;
use crate::options::IRRELEVANT;
use crate::options::LAMALEF_SPACE_SUB;
use crate::options::LAM_CHAR;
use crate::options::U_SHAPE_AGGREGATE_TASHKEEL;
use crate::options::U_SHAPE_AGGREGATE_TASHKEEL_MASK;
use crate::options::U_SHAPE_LAMALEF_MASK;
use crate::options::U_SHAPE_LAMALEF_RESIZE;
use crate::options::U_SHAPE_LETTERS_MASK;
use crate::options::U_SHAPE_LETTERS_SHAPE;
use crate::options::U_SHAPE_LETTERS_SHAPE_TASHKEEL_ISOLATED;
use crate::options::U_SHAPE_LETTERS_UNSHAPE;
use crate::options::U_SHAPE_TASHKEEL_MASK;
use crate::options::U_SHAPE_TASHKEEL_REPLACE_BY_TATWEEL;
use crate::options::U_SHAPE_TASHKEEL_RESIZE;
use crate::options::U_SHAPE_TEXT_DIRECTION_LOGICAL;
use crate::options::U_SHAPE_TEXT_DIRECTION_MASK;
use crate::options::U_SHAPE_TEXT_DIRECTION_VISUAL_LTR;
use crate::options::COMBINE;
use crate::options::LAMTYPE;
use crate::options::LINKL;
use crate::options::LINKR;
use crate::options::NEW_TAIL_CHAR;
use crate::options::SHADDA06_CHAR;
use crate::options::TASHKEEL_SPACE_SUB;
use crate::options::SHADDA_CHAR;
use crate::options::SHADDA_TATWEEL_CHAR;
use crate::options::SPACE_CHAR;
use crate::options::TATWEEL_CHAR;
use vstd::pervasive::VecAdditionalExecFns;

verus! {

/// The Lam-Alef placeholder of an Alef character, in the base block's
/// private region, or zero for any other character.
pub open spec fn spec_change_lam_alef(c: u16) -> u16 {
    if c == 0x0622 {
        0x065C
    } else if c == 0x0623 {
        0x065D
    } else if c == 0x0625 {
        0x065E
    } else if c == 0x0627 {
        0x065F
    } else {
        0
    }
}

/// Map an Alef to its Lam-Alef placeholder in the base block.
fn change_lam_alef(ch: &u16) -> (r: u16)
    ensures
        r == spec_change_lam_alef(*ch),
{
    if *ch == 0x0622 {
        0x065C
    } else if *ch == 0x0623 {
        0x065D
    } else if *ch == 0x0625 {
        0x065E
    } else if *ch == 0x0627 {
        0x065F
    } else {
        0
    }
}

/// Whether `c` is a tashkeel character of the base block.
pub open spec fn spec_is_tashkeel_char(c: u16) -> bool {
    0x064B <= c && c <= 0x0652
}

/// Check for a tashkeel character in the base block.
fn is_tashkeel_char(ch: &u16) -> (r: bool)
    ensures
        r == spec_is_tashkeel_char(*ch),
{
    0x064B <= *ch && *ch <= 0x0652
}

/// Whether `c` is a tashkeel character of the presentation-form block.
pub open spec fn spec_is_tashkeel_char_fe(c: u16) -> bool {
    0xFE70 <= c && c <= 0xFE7F
}

/// Check for a tashkeel character in the presentation-form block.
fn is_tashkeel_char_fe(ch: &u16) -> (r: bool)
    ensures
        r == spec_is_tashkeel_char_fe(*ch),
{
    0xFE70 <= *ch && *ch <= 0xFE7F
}

/// Whether `c` is one of the four Alef characters.
pub open spec fn spec_is_alef_char(c: u16) -> bool {
    c == 0x0622 || c == 0x0623 || c == 0x0625 || c == 0x0627
}

/// Check for an Alef character.
fn is_alef_char(ch: &u16) -> (r: bool)
    ensures
        r == spec_is_alef_char(*ch),
{
    *ch == 0x0622 || *ch == 0x0623 || *ch == 0x0625 || *ch == 0x0627
}

/// Whether `c` is a Lam-Alef presentation form.
pub open spec fn spec_is_lam_alef_char(c: u16) -> bool {
    0xFEF5 <= c && c <= 0xFEFC
}

/// Check for a Lam-Alef presentation form.
fn is_lam_alef_char(ch: &u16) -> (r: bool)
    ensures
        r == spec_is_lam_alef_char(*ch),
{
    0xFEF5 <= *ch && *ch <= 0xFEFC
}

/// The link value of one code unit: its joining bits, its Lam, Alef and
/// combining flags, and its presentation-form offset.
pub open spec fn spec_get_link(c: u16) -> u16 {
    if 0x0622 <= c && c <= 0x06D3 {
        ARA_LINK[c - 0x0622]
    } else if c == 0x200D {
        3
    } else if 0x206D <= c && c <= 0x206F {
        4
    } else if 0xFB50 <= c && c <= 0xFC62 {
        PRES_ALINK[c - 0xFB50] as u16
    } else if 0xFE70 <= c && c <= 0xFEFC {
        PRES_BLINK[c - 0xFE70] as u16
    } else {
        0
    }
}

/// Resolve the link value of one code unit from the link tables.
fn get_link(ch: &u16) -> (r: u16)
    ensures
        r == spec_get_link(*ch),
{
    if 0x0622 <= *ch && *ch <= 0x06D3 {
        let ind: usize = (*ch - 0x0622) as usize;
        ARA_LINK[ind]
    } else if *ch == 0x200D {
        3
    } else if 0x206D <= *ch && *ch <= 0x206F {
        4
    } else if 0xFB50 <= *ch && *ch <= 0xFC62 {
        let ind: usize = (*ch - 0xFB50) as usize;
        PRES_ALINK[ind] as u16
    } else if 0xFE70 <= *ch && *ch <= 0xFEFC {
        let ind: usize = (*ch - 0xFE70) as usize;
        PRES_BLINK[ind] as u16
    } else {
        0
    }
}

/// Whether a tashkeel character sits on a tatweel: 1 for the medial
/// presentation forms, 2 for the shadda-combined forms, 0 otherwise.
pub open spec fn spec_is_tashkeel_on_tatweel_char(c: u16) -> int {
    if 0xFE70 <= c && c <= 0xFE7F && c != NEW_TAIL_CHAR && c != 0xFE75 && c != SHADDA_TATWEEL_CHAR {
        TASHKEEL_MEDIAL[c - 0xFE70] as int
    } else if (0xFCF2 <= c && c <= 0xFCF4) || c == SHADDA_TATWEEL_CHAR {
        2
    } else {
        0
    }
}

/// Classify a tashkeel-on-tatweel character.
fn is_tashkeel_on_tatweel_char(ch: &u16) -> (r: i32)
    ensures
        r == spec_is_tashkeel_on_tatweel_char(*ch),
{
    if 0xFE70 <= *ch && *ch <= 0xFE7F && *ch != NEW_TAIL_CHAR && *ch != 0xFE75 && *ch
        != SHADDA_TATWEEL_CHAR {
        let ind: usize = (*ch - 0xFE70) as usize;
        TASHKEEL_MEDIAL[ind] as i32
    } else if (0xFCF2 <= *ch && *ch <= 0xFCF4) || *ch == SHADDA_TATWEEL_CHAR {
        2
    } else {
        0
    }
}

/// Whether a tashkeel character stands in its isolated form: 1 for the
/// non-medial presentation forms and the aggregated shadda forms, 0
/// otherwise.
pub open spec fn spec_is_isolated_tashkeel_char(c: u16) -> int {
    if 0xFE70 <= c && c <= 0xFE7F && c != NEW_TAIL_CHAR && c != 0xFE75 {
        if TASHKEEL_MEDIAL[c - 0xFE70] == 0 {
            1
        } else {
            0
        }
    } else if 0xFC5E <= c && c <= 0xFC63 {
        1
    } else {
        0
    }
}

/// Classify an isolated tashkeel character.
fn is_isolated_tashkeel_char(ch: &u16) -> (r: i32)
    ensures
        r == spec_is_isolated_tashkeel_char(*ch),
{
    if 0xFE70 <= *ch && *ch <= 0xFE7F && *ch != NEW_TAIL_CHAR && *ch != 0xFE75 {
        let ind: usize = (*ch - 0xFE70) as usize;
        if TASHKEEL_MEDIAL[ind] == 0 {
            1
        } else {
            0
        }
    } else if 0xFC5E <= *ch && *ch <= 0xFC63 {
        1
    } else {
        0
    }
}

/// One unit after tatweel substitution: a tashkeel on tatweel becomes a
/// tatweel, a shadda on tatweel becomes the combined form, any other
/// isolated tashkeel but the bare shadda becomes a space.
pub open spec fn spec_tatweel_unit(c: u16) -> u16 {
    if spec_is_tashkeel_on_tatweel_char(c) == 1 {
        TATWEEL_CHAR
    } else if spec_is_tashkeel_on_tatweel_char(c) == 2 {
        SHADDA_TATWEEL_CHAR
    } else if spec_is_isolated_tashkeel_char(c) != 0 && c != SHADDA_CHAR {
        SPACE_CHAR
    } else {
        c
    }
}

/// The whole buffer after tatweel substitution.
pub open spec fn spec_handle_tatweel(s: Seq<u16>) -> Seq<u16> {
    s.map_values(|c: u16| spec_tatweel_unit(c))
}

/// Replace tashkeel forms on tatweel by the tatweel or the combined form,
/// and the remaining isolated tashkeel forms (except the bare shadda) by
/// a space.
fn handle_tashkeel_with_tatweel(dest: &mut Vec<u16>)
    ensures
        final(dest)@ == spec_handle_tatweel(old(dest)@),
{
    let ghost s0 = dest@;
    let mut i: usize = 0;
    while i < dest.len()
        invariant
            i <= dest@.len(),
            dest@.len() == s0.len(),
            forall|k: int| 0 <= k < i ==> dest@[k] == spec_tatweel_unit(s0[k]),
            forall|k: int| i <= k < s0.len() ==> dest@[k] == s0[k],
        decreases dest@.len() - i,
    {
        let c = dest[i];
        if is_tashkeel_on_tatweel_char(&c) == 1 {
            dest.set(i, TATWEEL_CHAR);
        } else if is_tashkeel_on_tatweel_char(&c) == 2 {
            dest.set(i, SHADDA_TATWEEL_CHAR);
        } else if is_isolated_tashkeel_char(&c) != 0 && c != SHADDA_CHAR {
            dest.set(i, SPACE_CHAR);
        }
        i += 1;
    }
    proof {
        assert(dest@ =~= spec_handle_tatweel(s0));
    }
}

/// The first index at or after `i` whose unit is not a space.
pub open spec fn spec_first_non_space(s: Seq<u16>, i: int) -> int
    decreases s.len() - i,
{
    if i < 0 || i >= s.len() {
        s.len() as int
    } else if s[i] == SPACE_CHAR {
        spec_first_non_space(s, i + 1)
    } else {
        i
    }
}

/// One past the last non-space index strictly below `j`.
pub open spec fn spec_last_non_space(s: Seq<u16>, j: int) -> int
    decreases j,
{
    if j > 0 && j <= s.len() && s[j - 1] == SPACE_CHAR {
        spec_last_non_space(s, j - 1)
    } else {
        j
    }
}

/// The number of spaces at the left end of the buffer.
pub open spec fn spec_spaces_countl(s: Seq<u16>) -> int {
    spec_first_non_space(s, 0)
}

/// The number of spaces at the right end of the buffer, zero when the
/// whole buffer is spaces.
pub open spec fn spec_spaces_countr(s: Seq<u16>) -> int {
    if spec_first_non_space(s, 0) < s.len() {
        s.len() - spec_last_non_space(s, s.len() as int)
    } else {
        0
    }
}

/// Count the spaces at each end of the buffer.
fn count_spaces(dest: &Vec<u16>, spaces_countl: &mut usize, spaces_countr: &mut usize)
    ensures
        *final(spaces_countl) == spec_spaces_countl(dest@),
        *final(spaces_countr) == spec_spaces_countr(dest@),
        *final(spaces_countl) + *final(spaces_countr) <= dest@.len(),
{
    let ghost s = dest@;
    let mut countl: usize = 0;
    while countl < dest.len() && dest[countl] == SPACE_CHAR
        invariant
            s == dest@,
            countl <= s.len(),
            spec_first_non_space(s, 0) == spec_first_non_space(s, countl as int),
        decreases s.len() - countl,
    {
        assert(spec_first_non_space(s, countl as int) == spec_first_non_space(
            s,
            countl + 1 as int,
        ));
        countl += 1;
    }
    assert(spec_first_non_space(s, 0) == countl as int);
    let mut countr: usize = 0;
    if countl < dest.len() {
        let mut e: usize = dest.len();
        while e > 0 && dest[e - 1] == SPACE_CHAR
            invariant
                s == dest@,
                countl < e <= s.len(),
                countl < s.len(),
                s[countl as int] != SPACE_CHAR,
                spec_last_non_space(s, s.len() as int) == spec_last_non_space(s, e as int),
            decreases e,
        {
            assert(spec_last_non_space(s, e as int) == spec_last_non_space(s, e - 1 as int));
            e -= 1;
        }
        assert(spec_last_non_space(s, e as int) == e as int);
        countr = dest.len() - e;
    }
    *spaces_countl = countl;
    *spaces_countr = countr;
}

/// The buffer with the segment between the two space margins reversed.
pub open spec fn spec_invert(s: Seq<u16>, low: int, high: int) -> Seq<u16> {
    Seq::new(
        s.len(),
        |i: int|
            if low <= i < s.len() - high {
                s[low + (s.len() - high) - 1 - i]
            } else {
                s[i]
            },
    )
}

/// Reverse the buffer between `lowlimit` from its start and `highlimit`
/// from its end.
fn invert_buffer(buffer: &mut Vec<u16>, lowlimit: usize, highlimit: usize)
    requires
        lowlimit + highlimit <= old(buffer)@.len(),
    ensures
        final(buffer)@ == spec_invert(old(buffer)@, lowlimit as int, highlimit as int),
{
    let ghost s0 = buffer@;
    let ghost hi0 = s0.len() - highlimit as int;
    let hi = buffer.len() - highlimit;
    let mut i: usize = lowlimit;
    let mut j: usize = hi;
    while j - i > 1
        invariant
            lowlimit <= i <= j <= hi <= buffer@.len(),
            buffer@.len() == s0.len(),
            hi == hi0,
            i - lowlimit == hi - j,
            forall|p: int| 0 <= p < lowlimit ==> buffer@[p] == s0[p],
            forall|p: int| hi <= p < s0.len() ==> buffer@[p] == s0[p],
            forall|p: int| lowlimit <= p < i ==> buffer@[p] == s0[lowlimit + hi0 - 1 - p],
            forall|p: int| j <= p < hi ==> buffer@[p] == s0[lowlimit + hi0 - 1 - p],
            forall|p: int| i <= p < j ==> buffer@[p] == s0[p],
        decreases j - i,
    {
        let a = buffer[i];
        let b = buffer[j - 1];
        buffer.set(i, b);
        buffer.set(j - 1, a);
        i += 1;
        j -= 1;
    }
    proof {
        assert(buffer@ =~= spec_invert(s0, lowlimit as int, highlimit as int));
    }
}

/// Where the backward scan for the next relevant neighbour stands.
#[derive(Clone, Copy, PartialEq, Eq, Structural, Debug)]
pub enum NextPos {
    /// Not computed yet.
    Unknown,
    /// The nearest position below the current one whose link is not
    /// transparent.
    At(usize),
    /// Every position below the current one is transparent.
    Exhausted,
}

/// The whole state of the contextual walk: the buffer, the current
/// position, the position and links of the nearest relevant neighbours on
/// both sides, and whether the walk has passed the buffer's start.
pub struct WalkState {
    /// The buffer being shaped.
    pub buf: Seq<u16>,
    /// The position the walk stands at.
    pub i: int,
    /// The position of the last non-transparent unit visited.
    pub last_pos: int,
    /// The link of the non-transparent unit before the last one.
    pub prev_link: u16,
    /// The link of the last non-transparent unit visited.
    pub last_link: u16,
    /// The link of the unit at the current position.
    pub curr_link: u16,
    /// The state of the backward scan for the next relevant unit.
    pub nx: NextPos,
    /// The link of the unit the backward scan found.
    pub next_link: u16,
    /// Whether the walk has processed position zero.
    pub done: bool,
}

/// The number of Alef characters in the buffer (the Lam-Alef composition
/// consumes one on every ligature, which bounds the walk).
pub open spec fn spec_alef_count(s: Seq<u16>) -> int
    decreases s.len(),
{
    if s.len() == 0 {
        0
    } else {
        (if spec_is_alef_char(s[0]) {
            1int
        } else {
            0
        }) + spec_alef_count(s.drop_first())
    }
}

/// The Alef count is not negative.
proof fn lemma_alef_count_nonneg(s: Seq<u16>)
    ensures
        spec_alef_count(s) >= 0,
    decreases s.len(),
{
    if s.len() > 0 {
        lemma_alef_count_nonneg(s.drop_first());
    }
}

/// How one substitution changes the Alef count.
proof fn lemma_alef_count_update(s: Seq<u16>, j: int, v: u16)
    requires
        0 <= j < s.len(),
    ensures
        spec_alef_count(s.update(j, v)) == spec_alef_count(s) - (if spec_is_alef_char(s[j]) {
            1int
        } else {
            0
        }) + (if spec_is_alef_char(v) {
            1int
        } else {
            0
        }),
    decreases s.len(),
{
    if j == 0 {
        assert(s.update(0, v).drop_first() =~= s.drop_first());
    } else {
        assert(s.update(j, v).drop_first() =~= s.drop_first().update(j - 1, v));
        lemma_alef_count_update(s.drop_first(), j - 1, v);
    }
}

/// The nearest position at or below `nw` whose unit's link is not
/// transparent, or -1 if there is none.
pub open spec fn spec_find_next(dest: Seq<u16>, nw: int) -> int
    decreases nw + 1,
{
    if nw < 0 {
        -1
    } else if spec_get_link(dest[nw]) & IRRELEVANT == 0 {
        nw
    } else {
        spec_find_next(dest, nw - 1)
    }
}

/// The backward scan stays at or below its start.
proof fn lemma_find_next_bounds(dest: Seq<u16>, nw: int)
    requires
        -1 <= nw,
    ensures
        -1 <= spec_find_next(dest, nw) <= nw,
    decreases nw + 1,
{
    if nw >= 0 && spec_get_link(dest[nw]) & IRRELEVANT != 0 {
        lemma_find_next_bounds(dest, nw - 1);
    }
}

/// One iteration of the contextual walk at the state's position: resolve
/// the neighbours' links, compose a Lam-Alef ligature where an Alef
/// follows a Lam, select the presentation form from the shape table, write
/// it, and step one position backward.
#[verifier::opaque]
pub open spec fn spec_walk_step(st: WalkState, tashkeel_flag: int) -> WalkState {
    let dest = st.buf;
    let i = st.i;
    let enter = (st.curr_link & 0xFF00) > 0 || (spec_get_link(dest[i]) & IRRELEVANT) != 0;
    // the backward scan for the next relevant unit, once per gap
    let lookup = enter && st.nx == NextPos::Unknown;
    let np = spec_find_next(dest, i - 1);
    let nx1 = if lookup {
        if np < 0 {
            NextPos::Exhausted
        } else {
            NextPos::At(np as usize)
        }
    } else {
        st.nx
    };
    let next_link1 = if lookup {
        if np < 0 {
            0u16
        } else {
            spec_get_link(dest[np])
        }
    } else {
        st.next_link
    };
    // Lam-Alef composition
    let compose = enter && (st.curr_link & ALEFTYPE) > 0 && (st.last_link & LAMTYPE) > 0;
    let w = spec_change_lam_alef(dest[i]);
    let dest1 = if compose && w != 0 {
        dest.update(i, LAMALEF_SPACE_SUB).update(st.last_pos, w)
    } else {
        dest
    };
    let i1 = if compose && w != 0 {
        st.last_pos
    } else {
        i
    };
    let last_link1 = if compose {
        st.prev_link
    } else {
        st.last_link
    };
    let curr_link1 = if compose {
        spec_get_link(w)
    } else {
        st.curr_link
    };
    // the shape, selected by the three link values
    let shape0 = SHAPE_TABLE[16 * (next_link1 & 3) + 4 * (last_link1 & 3) + (curr_link1
        & 3)] as u16;
    let shape = if (curr_link1 & 3) == 1 {
        shape0 & 1
    } else if spec_is_tashkeel_char(dest1[i1]) {
        if (last_link1 & LINKL) > 0 && (next_link1 & LINKR) > 0 && tashkeel_flag == 1 && dest1[i1]
            != 0x064C && dest1[i1] != 0x064D {
            if (next_link1 & ALEFTYPE) == ALEFTYPE && (last_link1 & LAMTYPE) == LAMTYPE {
                0u16
            } else {
                1u16
            }
        } else if tashkeel_flag == 2 && dest1[i1] == SHADDA06_CHAR {
            1u16
        } else {
            0u16
        }
    } else {
        shape0
    };
    // write the presentation form
    let dest2 = if enter && ((dest1[i1] ^ 0x0600) < 0x100) {
        if spec_is_tashkeel_char(dest1[i1]) {
            if tashkeel_flag == 2 && dest1[i1] != SHADDA06_CHAR {
                dest1.update(i1, TASHKEEL_SPACE_SUB)
            } else {
                dest1.update(
                    i1,
                    (0xFE70 + IRRELEVANT_POS[dest1[i1] - 0x064B] + shape) as u16,
                )
            }
        } else if (curr_link1 & APRESENT) > 0 {
            dest1.update(i1, (0xFB50 + (curr_link1 >> 8) + shape) as u16)
        } else if (curr_link1 >> 8) > 0 && (curr_link1 & IRRELEVANT) == 0 {
            dest1.update(i1, (0xFE70 + (curr_link1 >> 8) + shape) as u16)
        } else {
            dest1
        }
    } else {
        dest1
    };
    // move one notch forward
    let advance = (curr_link1 & IRRELEVANT) == 0;
    let prev_link2 = if advance {
        last_link1
    } else {
        st.prev_link
    };
    let last_link2 = if advance {
        curr_link1
    } else {
        last_link1
    };
    let last_pos2 = if advance {
        i1
    } else {
        st.last_pos
    };
    let done = i1 == 0;
    let i2 = if i1 > 0 {
        i1 - 1
    } else {
        i1
    };
    let hit = !done && nx1 == NextPos::At(i2 as usize);
    let curr_link2 = if done {
        curr_link1
    } else if hit {
        next_link1
    } else {
        spec_get_link(dest2[i2])
    };
    let nx2 = if hit {
        NextPos::Unknown
    } else {
        nx1
    };
    WalkState {
        buf: dest2,
        i: i2,
        last_pos: last_pos2,
        prev_link: prev_link2,
        last_link: last_link2,
        curr_link: curr_link2,
        nx: nx2,
        next_link: next_link1,
        done,
    }
}

/// The walk's state is inside the buffer while it is not done.
pub open spec fn walk_wf(st: WalkState) -> bool {
    st.buf.len() <= usize::MAX && (!st.done ==> 0 <= st.i <= st.last_pos < st.buf.len())
}

/// Every entry of the shape table is one of the four forms.
proof fn lemma_shape_table_le3(t: int)
    requires
        0 <= t < 64,
    ensures
        SHAPE_TABLE[t] <= 3,
{
    assert(forall|k: int| 0 <= k < 64 ==> SHAPE_TABLE[k] <= 3) by {
        assert(SHAPE_TABLE@ =~= SHAPE_TABLE@);
    }
}

/// The value a presentation-form write stores is never an Alef.
proof fn lemma_written_not_alef(base: int, add1: int, add2: int)
    requires
        base == 0xFB50 || base == 0xFE70,
        0 <= add1 <= 0xFF,
        0 <= add2 <= 3,
    ensures
        !spec_is_alef_char(((base + add1 + add2) as u16)),
{
    let sum = base + add1 + add2;
    assert(sum as u16 == sum);
}

/// One iteration keeps the state well formed and shrinks the measure: the
/// position falls, or a Lam-Alef composition consumes an Alef.
proof fn lemma_walk_step_frame(st: WalkState, tashkeel_flag: int)
    requires
        walk_wf(st),
        !st.done,
    ensures
        walk_wf(spec_walk_step(st, tashkeel_flag)),
        spec_walk_step(st, tashkeel_flag).buf.len() == st.buf.len(),
        spec_alef_count(spec_walk_step(st, tashkeel_flag).buf) <= spec_alef_count(st.buf),
        spec_alef_count(spec_walk_step(st, tashkeel_flag).buf) == spec_alef_count(st.buf)
            && !spec_walk_step(st, tashkeel_flag).done ==> spec_walk_step(st, tashkeel_flag).i
            < st.i,
{
    reveal(spec_walk_step);
    let dest = st.buf;
    let i = st.i;
    let enter = (st.curr_link & 0xFF00) > 0 || (spec_get_link(dest[i]) & IRRELEVANT) != 0;
    let lookup = enter && st.nx == NextPos::Unknown;
    let np = spec_find_next(dest, i - 1);
    let next_link1 = if lookup {
        if np < 0 {
            0u16
        } else {
            spec_get_link(dest[np])
        }
    } else {
        st.next_link
    };
    let compose = enter && (st.curr_link & ALEFTYPE) > 0 && (st.last_link & LAMTYPE) > 0;
    let w = spec_change_lam_alef(dest[i]);
    let dest1 = if compose && w != 0 {
        dest.update(i, LAMALEF_SPACE_SUB).update(st.last_pos, w)
    } else {
        dest
    };
    let i1 = if compose && w != 0 {
        st.last_pos
    } else {
        i
    };
    let last_link1 = if compose {
        st.prev_link
    } else {
        st.last_link
    };
    let curr_link1 = if compose {
        spec_get_link(w)
    } else {
        st.curr_link
    };
    if compose && w != 0 {
        lemma_alef_count_update(dest, i, LAMALEF_SPACE_SUB);
        lemma_alef_count_update(dest.update(i, LAMALEF_SPACE_SUB), st.last_pos, w);
        assert(spec_alef_count(dest1) <= spec_alef_count(dest) - 1);
    }
    // the possible write at i1 stores no Alef
    assert((next_link1 & 3) <= 3 && (last_link1 & 3) <= 3 && (curr_link1 & 3) <= 3)
        by (bit_vector);
    let shape0 = SHAPE_TABLE[16 * (next_link1 & 3) + 4 * (last_link1 & 3) + (curr_link1
        & 3)] as u16;
    let shape = if (curr_link1 & 3) == 1 {
        shape0 & 1
    } else if spec_is_tashkeel_char(dest1[i1]) {
        if (last_link1 & LINKL) > 0 && (next_link1 & LINKR) > 0 && tashkeel_flag == 1 && dest1[i1]
            != 0x064C && dest1[i1] != 0x064D {
            if (next_link1 & ALEFTYPE) == ALEFTYPE && (last_link1 & LAMTYPE) == LAMTYPE {
                0u16
            } else {
                1u16
            }
        } else if tashkeel_flag == 2 && dest1[i1] == SHADDA06_CHAR {
            1u16
        } else {
            0u16
        }
    } else {
        shape0
    };
    let dest2 = spec_walk_step(st, tashkeel_flag).buf;
    assert(shape <= 3) by {
        lemma_shape_table_le3(16 * (next_link1 & 3) + 4 * (last_link1 & 3) + (curr_link1 & 3));
        assert(shape0 & 1 <= shape0) by (bit_vector);
    }
    assert((curr_link1 >> 8) <= 0xFF) by (bit_vector);
    if enter && ((dest1[i1] ^ 0x0600) < 0x100) {
        if spec_is_tashkeel_char(dest1[i1]) {
            if tashkeel_flag == 2 && dest1[i1] != SHADDA06_CHAR {
                lemma_alef_count_update(dest1, i1, TASHKEEL_SPACE_SUB);
            } else {
                lemma_written_not_alef(
                    0xFE70,
                    IRRELEVANT_POS[dest1[i1] - 0x064B] as int,
                    shape as int,
                );
                lemma_alef_count_update(
                    dest1,
                    i1,
                    (0xFE70 + IRRELEVANT_POS[dest1[i1] - 0x064B] + shape) as u16,
                );
            }
        } else if (curr_link1 & APRESENT) > 0 {
            lemma_written_not_alef(0xFB50, (curr_link1 >> 8) as int, shape as int);
            lemma_alef_count_update(dest1, i1, (0xFB50 + (curr_link1 >> 8) + shape) as u16);
        } else if (curr_link1 >> 8) > 0 && (curr_link1 & IRRELEVANT) == 0 {
            lemma_written_not_alef(0xFE70, (curr_link1 >> 8) as int, shape as int);
            lemma_alef_count_update(dest1, i1, (0xFE70 + (curr_link1 >> 8) + shape) as u16);
        }
    }
}

/// Build a walk state from its parts.
pub open spec fn mk_state(
    buf: Seq<u16>,
    i: int,
    last_pos: int,
    prev_link: u16,
    last_link: u16,
    curr_link: u16,
    nx: NextPos,
    next_link: u16,
    done: bool,
) -> WalkState {
    WalkState { buf, i, last_pos, prev_link, last_link, curr_link, nx, next_link, done }
}

/// The buffer the contextual walk leaves behind, run to completion from
/// the given state.
pub open spec fn spec_walk_run(st: WalkState, tashkeel_flag: int) -> Seq<u16>
    decreases spec_alef_count(st.buf), (if st.done {
        0int
    } else {
        st.i + 1
    })
        when walk_wf(st)
        via spec_walk_run_decreases
{
    if st.done {
        st.buf
    } else {
        spec_walk_run(spec_walk_step(st, tashkeel_flag), tashkeel_flag)
    }
}

#[via_fn]
proof fn spec_walk_run_decreases(st: WalkState, tashkeel_flag: int) {
    if !st.done {
        lemma_walk_step_frame(st, tashkeel_flag);
        lemma_alef_count_nonneg(st.buf);
        lemma_alef_count_nonneg(spec_walk_step(st, tashkeel_flag).buf);
    }
}

/// The buffer after the contextual walk, started at its last position
/// with empty link history.
pub open spec fn spec_shape_arabic_core(s: Seq<u16>, tashkeel_flag: int) -> Seq<u16> {
    if s.len() == 0 || s.len() > usize::MAX {
        s
    } else {
        spec_walk_run(
            mk_state(
                s,
                s.len() - 1,
                s.len() - 1,
                0,
                0,
                spec_get_link(s[s.len() - 1]),
                NextPos::Unknown,
                0,
                false,
            ),
            tashkeel_flag,
        )
    }
}

/// One in-place iteration of the contextual walk.
#[verifier::rlimit(100)]
fn walk_step_in_place(
    buf_in: Vec<u16>,
    i: &mut usize,
    last_pos: &mut usize,
    prev_link: &mut u16,
    last_link: &mut u16,
    curr_link: &mut u16,
    nx: &mut NextPos,
    next_link: &mut u16,
    done: &mut bool,
    tashkeel_flag: i32,
    Ghost(stg): Ghost<WalkState>,
) -> (out: Vec<u16>)
    requires
        stg == mk_state(
            buf_in@,
            *old(i) as int,
            *old(last_pos) as int,
            *old(prev_link),
            *old(last_link),
            *old(curr_link),
            *old(nx),
            *old(next_link),
            *old(done),
        ),
        !*old(done),
        walk_wf(stg),
    ensures
        out@ == spec_walk_step(stg, tashkeel_flag as int).buf,
        *final(i) as int == spec_walk_step(stg, tashkeel_flag as int).i,
        *final(last_pos) as int == spec_walk_step(stg, tashkeel_flag as int).last_pos,
        *final(prev_link) == spec_walk_step(stg, tashkeel_flag as int).prev_link,
        *final(last_link) == spec_walk_step(stg, tashkeel_flag as int).last_link,
        *final(curr_link) == spec_walk_step(stg, tashkeel_flag as int).curr_link,
        *final(nx) == spec_walk_step(stg, tashkeel_flag as int).nx,
        *final(next_link) == spec_walk_step(stg, tashkeel_flag as int).next_link,
        *final(done) == spec_walk_step(stg, tashkeel_flag as int).done,
{
    proof {
        reveal(spec_walk_step);
    }
    let mut dest = buf_in;
    let gl = get_link(&dest[*i]);
    let enter = (*curr_link & 0xFF00) > 0 || (gl & IRRELEVANT) != 0;
    if enter {
        // find the nearest non-transparent unit below, once per gap
        if *nx == NextPos::Unknown {
            let ghost s = dest@;
            let ii = *i;
            let mut j: usize = ii;
            let mut found = false;
            let mut res_at: usize = 0;
            while j > 0 && !found
                invariant
                    s == dest@,
                    j <= ii < s.len(),
                    !found ==> spec_find_next(s, ii - 1) == spec_find_next(s, j - 1),
                    found ==> j >= 1 && spec_find_next(s, ii - 1) == j - 1 && res_at == j - 1,
                decreases (if found {
                    0int
                } else {
                    j + 1
                }),
            {
                if get_link(&dest[j - 1]) & IRRELEVANT == 0 {
                    found = true;
                    res_at = j - 1;
                } else {
                    assert(spec_find_next(s, j - 1 as int) == spec_find_next(s, j - 2 as int));
                    j -= 1;
                }
            }
            if found {
                *nx = NextPos::At(res_at);
                *next_link = get_link(&dest[res_at]);
            } else {
                assert(spec_find_next(dest@, ii - 1) == -1);
                *nx = NextPos::Exhausted;
                *next_link = 0;
            }
        }
        // Lam-Alef composition
        if (*curr_link & ALEFTYPE) > 0 && (*last_link & LAMTYPE) > 0 {
            let w = change_lam_alef(&dest[*i]);
            if w != 0 {
                let ip = *i;
                let lp = *last_pos;
                dest.set(ip, LAMALEF_SPACE_SUB);
                dest.set(lp, w);
                *i = lp;
            }
            *last_link = *prev_link;
            *curr_link = get_link(&w);
        }
        // select the shape from the three link values
        let si = (*next_link & 3) as usize;
        let sj = (*last_link & 3) as usize;
        let sk = (*curr_link & 3) as usize;
        proof {
            let a = *next_link;
            let b = *last_link;
            let c = *curr_link;
            assert((a & 3) <= 3 && (b & 3) <= 3 && (c & 3) <= 3) by (bit_vector);
        }
        let shape0 = SHAPE_TABLE[16 * si + 4 * sj + sk] as u16;
        proof {
            lemma_shape_table_le3(16 * si + 4 * sj + sk);
        }
        let mut shape = shape0;
        let di = dest[*i];
        if (*curr_link & 3) == 1 {
            shape = shape0 & 1;
            proof {
                let a = shape0;
                assert(a & 1 <= a) by (bit_vector);
            }
        } else if is_tashkeel_char(&di) {
            if (*last_link & LINKL) > 0 && (*next_link & LINKR) > 0 && tashkeel_flag == 1 && di
                != 0x064C && di != 0x064D {
                if (*next_link & ALEFTYPE) == ALEFTYPE && (*last_link & LAMTYPE) == LAMTYPE {
                    shape = 0;
                } else {
                    shape = 1;
                }
            } else if tashkeel_flag == 2 && di == SHADDA06_CHAR {
                shape = 1;
            } else {
                shape = 0;
            }
        }
        // write the presentation form
        if (di ^ 0x0600) < 0x100 {
            let ip = *i;
            if is_tashkeel_char(&di) {
                if tashkeel_flag == 2 && di != SHADDA06_CHAR {
                    dest.set(ip, TASHKEEL_SPACE_SUB);
                } else {
                    let ind = (di - 0x064B) as usize;
                    dest.set(ip, 0xFE70 + (IRRELEVANT_POS[ind] as u16) + shape);
                }
            } else if (*curr_link & APRESENT) > 0 {
                proof {
                    let c = *curr_link;
                    assert((c >> 8) <= 0xFF) by (bit_vector);
                }
                dest.set(ip, 0xFB50 + (*curr_link >> 8) + shape);
            } else if (*curr_link >> 8) > 0 && (*curr_link & IRRELEVANT) == 0 {
                proof {
                    let c = *curr_link;
                    assert((c >> 8) <= 0xFF) by (bit_vector);
                }
                dest.set(ip, 0xFE70 + (*curr_link >> 8) + shape);
            }
        }
    }
    // move one notch forward
    if (*curr_link & IRRELEVANT) == 0 {
        *prev_link = *last_link;
        *last_link = *curr_link;
        *last_pos = *i;
    }
    if *i == 0 {
        *done = true;
    } else {
        let i2 = *i - 1;
        if *nx == NextPos::At(i2) {
            *curr_link = *next_link;
            *nx = NextPos::Unknown;
        } else {
            *curr_link = get_link(&dest[i2]);
        }
        *i = i2;
    }
    dest
}

/// Walk the buffer from its last position to its first, composing
/// Lam-Alef ligatures and replacing every character of the base Arabic
/// block by the presentation form its neighbours' links select.
fn shape_arabic_core(dest: &mut Vec<u16>, tashkeel_flag: i32)
    ensures
        final(dest)@ == spec_shape_arabic_core(old(dest)@, tashkeel_flag as int),
{
    let ghost flag = tashkeel_flag as int;
    if dest.len() == 0 {
        return ;
    }
    let mut work: Vec<u16> = Vec::new();
    core::mem::swap(dest, &mut work);
    let mut i: usize = work.len() - 1;
    let mut last_pos: usize = i;
    let mut prev_link: u16 = 0;
    let mut last_link: u16 = 0;
    let mut curr_link: u16 = get_link(&work[i]);
    let mut next_link: u16 = 0;
    let mut nx = NextPos::Unknown;
    let mut done = false;
    let ghost st0 = mk_state(
        work@,
        i as int,
        last_pos as int,
        prev_link,
        last_link,
        curr_link,
        nx,
        next_link,
        done,
    );
    while !done
        invariant
            flag == tashkeel_flag as int,
            walk_wf(
                mk_state(
                    work@,
                    i as int,
                    last_pos as int,
                    prev_link,
                    last_link,
                    curr_link,
                    nx,
                    next_link,
                    done,
                ),
            ),
            spec_walk_run(st0, flag) == spec_walk_run(
                mk_state(
                    work@,
                    i as int,
                    last_pos as int,
                    prev_link,
                    last_link,
                    curr_link,
                    nx,
                    next_link,
                    done,
                ),
                flag,
            ),
        decreases spec_alef_count(work@), (if done {
            0int
        } else {
            i + 1
        }),
    {
        let ghost stv = mk_state(
            work@,
            i as int,
            last_pos as int,
            prev_link,
            last_link,
            curr_link,
            nx,
            next_link,
            done,
        );
        proof {
            lemma_walk_step_frame(stv, flag);
            lemma_alef_count_nonneg(work@);
            lemma_alef_count_nonneg(spec_walk_step(stv, flag).buf);
        }
        let w2 = walk_step_in_place(
            work,
            &mut i,
            &mut last_pos,
            &mut prev_link,
            &mut last_link,
            &mut curr_link,
            &mut nx,
            &mut next_link,
            &mut done,
            tashkeel_flag,
            Ghost(stv),
        );
        work = w2;
        proof {
            let stn = mk_state(
                work@,
                i as int,
                last_pos as int,
                prev_link,
                last_link,
                curr_link,
                nx,
                next_link,
                done,
            );
            assert(stn == spec_walk_step(stv, flag));
            assert(spec_walk_run(stv, flag) == spec_walk_run(stn, flag));
        }
    }
    core::mem::swap(dest, &mut work);
}


/// Whether the unit at `i` will free one cell under the resize options:
/// in visual order an Alef followed by a Lam, or a presentation-form
/// tashkeel; in logical order a Lam followed by an Alef, or a
/// presentation-form tashkeel.
pub open spec fn spec_size_shrinks_at(s: Seq<u16>, i: int, logical: bool) -> bool {
    if logical {
        (s[i] == LAM_CHAR && i < s.len() - 1 && spec_is_alef_char(s[i + 1]))
            || spec_is_tashkeel_char_fe(s[i])
    } else {
        (spec_is_alef_char(s[i]) && i < s.len() - 1 && s[i + 1] == LAM_CHAR)
            || spec_is_tashkeel_char_fe(s[i])
    }
}

/// The running size after the shrinking scan has passed position `i`.
pub open spec fn spec_size_shrink_fold(s: Seq<u16>, i: int, size: int, logical: bool) -> int
    decreases s.len() - i,
{
    if i < 0 || i >= s.len() {
        size
    } else {
        spec_size_shrink_fold(
            s,
            i + 1,
            if spec_size_shrinks_at(s, i, logical) && size > 0 {
                size - 1
            } else {
                size
            },
            logical,
        )
    }
}

/// The running size after the growing scan (one extra cell for each
/// Lam-Alef presentation form) has passed position `i`.
pub open spec fn spec_size_grow_fold(s: Seq<u16>, i: int, size: int) -> int
    decreases s.len() - i,
{
    if i < 0 || i >= s.len() {
        size
    } else {
        spec_size_grow_fold(
            s,
            i + 1,
            if spec_is_lam_alef_char(s[i]) && size > 0 && size < usize::MAX {
                size + 1
            } else {
                size
            },
        )
    }
}

/// The output size the resize options call for: shrink for each pair that
/// will ligate and each tashkeel that will collapse, grow for each
/// Lam-Alef that will split.
pub open spec fn spec_calculate_size(s: Seq<u16>, options: u32) -> int {
    let lam_alef_option = ((options & U_SHAPE_LETTERS_MASK) == U_SHAPE_LETTERS_SHAPE || (options
        & U_SHAPE_LETTERS_MASK) == U_SHAPE_LETTERS_SHAPE_TASHKEEL_ISOLATED) && ((options
        & U_SHAPE_LAMALEF_MASK) == U_SHAPE_LAMALEF_RESIZE);
    let tashkeel_option = (options & U_SHAPE_LETTERS_MASK) == U_SHAPE_LETTERS_SHAPE && ((options
        & U_SHAPE_TASHKEEL_MASK) == U_SHAPE_TASHKEEL_RESIZE);
    let size1 = if lam_alef_option || tashkeel_option {
        if (options & U_SHAPE_TEXT_DIRECTION_MASK) == U_SHAPE_TEXT_DIRECTION_VISUAL_LTR {
            spec_size_shrink_fold(s, 0, s.len() as int, false)
        } else {
            spec_size_shrink_fold(s, 0, s.len() as int, true)
        }
    } else {
        s.len() as int
    };
    if ((options & U_SHAPE_LETTERS_MASK) == U_SHAPE_LETTERS_UNSHAPE) && ((options
        & U_SHAPE_LAMALEF_MASK) == U_SHAPE_LAMALEF_RESIZE) {
        spec_size_grow_fold(s, 0, size1)
    } else {
        size1
    }
}

/// Compute the output size that the resize options call for.
fn calculate_size(source: &Vec<u16>, options: &u32) -> (r: usize)
    ensures
        r == spec_calculate_size(source@, *options),
{
    let ghost s = source@;
    let mut dest_size: usize = source.len();
    let mut lam_alef_option = false;
    let mut tashkeel_option = false;
    if ((*options & U_SHAPE_LETTERS_MASK) == U_SHAPE_LETTERS_SHAPE || (*options
        & U_SHAPE_LETTERS_MASK) == U_SHAPE_LETTERS_SHAPE_TASHKEEL_ISOLATED) && ((*options
        & U_SHAPE_LAMALEF_MASK) == U_SHAPE_LAMALEF_RESIZE) {
        lam_alef_option = true;
    }
    if (*options & U_SHAPE_LETTERS_MASK) == U_SHAPE_LETTERS_SHAPE && ((*options
        & U_SHAPE_TASHKEEL_MASK) == U_SHAPE_TASHKEEL_RESIZE) {
        tashkeel_option = true;
    }
    if lam_alef_option || tashkeel_option {
        let logical = (*options & U_SHAPE_TEXT_DIRECTION_MASK)
            != U_SHAPE_TEXT_DIRECTION_VISUAL_LTR;
        let mut i: usize = 0;
        while i < source.len()
            invariant
                s == source@,
                i <= s.len(),
                dest_size <= s.len(),
                spec_size_shrink_fold(s, 0, s.len() as int, logical) == spec_size_shrink_fold(
                    s,
                    i as int,
                    dest_size as int,
                    logical,
                ),
            decreases s.len() - i,
        {
            let shrink: bool = if logical {
                (source[i] == LAM_CHAR && i < source.len() - 1 && is_alef_char(&source[i + 1]))
                    || is_tashkeel_char_fe(&source[i])
            } else {
                (is_alef_char(&source[i]) && i < source.len() - 1 && source[i + 1] == LAM_CHAR)
                    || is_tashkeel_char_fe(&source[i])
            };
            if shrink && dest_size > 0 {
                dest_size = dest_size - 1;
            }
            i += 1;
        }
    }
    if ((*options & U_SHAPE_LETTERS_MASK) == U_SHAPE_LETTERS_UNSHAPE) && ((*options
        & U_SHAPE_LAMALEF_MASK) == U_SHAPE_LAMALEF_RESIZE) {
        let mut i: usize = 0;
        while i < source.len()
            invariant
                s == source@,
                i <= s.len(),
                spec_size_grow_fold(s, 0, s.len() as int) == spec_size_grow_fold(
                    s,
                    i as int,
                    dest_size as int,
                ),
            decreases s.len() - i,
        {
            if is_lam_alef_char(&source[i]) && dest_size > 0 && dest_size < usize::MAX {
                dest_size = dest_size + 1;
            }
            i += 1;
        }
    }
    dest_size
}


/// The single presentation form that replaces a combinable shadda and
/// vowel-diacritic pair: the smaller of the two, carried into the
/// aggregated block.
pub open spec fn spec_combine_pair(a: u16, b: u16) -> u16 {
    let m: u16 = if a < b {
        a
    } else {
        b
    };
    if 0x064C <= m && m <= 0x0651 {
        (m - 0x064C + 0xFC5E) as u16
    } else {
        m
    }
}

/// The aggregated buffer from position `i` on: whenever the previous and
/// the current unit carry the two combining-mark flags between them, the
/// unit just written is replaced by the combined presentation form; no
/// two combinations happen back to back.
pub open spec fn spec_aggregate_run(
    s: Seq<u16>,
    i: int,
    prev: u16,
    curr_link: u16,
    possible: bool,
    aggregate: bool,
    acc: Seq<u16>,
) -> Seq<u16>
    decreases s.len() - i,
{
    if i < 0 || i >= s.len() {
        acc
    } else {
        let prev_link = curr_link;
        let cl = spec_get_link(s[i]);
        if aggregate && ((prev_link | cl) & COMBINE) == COMBINE && possible && acc.len() > 0 {
            let combined = spec_combine_pair(prev, s[i]);
            spec_aggregate_run(
                s,
                i + 1,
                prev,
                spec_get_link(combined),
                false,
                aggregate,
                acc.update(acc.len() - 1, combined),
            )
        } else {
            spec_aggregate_run(s, i + 1, s[i], cl, true, aggregate, acc.push(s[i]))
        }
    }
}

/// The buffer after the tashkeel aggregation pre-pass, scanned in logical
/// or in visual order.
pub open spec fn spec_aggregate(s: Seq<u16>, logical: bool, aggregate: bool) -> Seq<u16> {
    if logical {
        spec_aggregate_run(s, 0, 0, 0, true, aggregate, Seq::empty())
    } else {
        spec_aggregate_run(s.reverse(), 0, 0, 0, true, aggregate, Seq::empty()).reverse()
    }
}

/// A copy of the buffer in reverse order.
fn reversed_units(v: &Vec<u16>) -> (out: Vec<u16>)
    ensures
        out@ == v@.reverse(),
{
    let mut out: Vec<u16> = Vec::new();
    let mut k: usize = v.len();
    while k > 0
        invariant
            k <= v@.len(),
            out@.len() == v@.len() - k,
            forall|j: int| 0 <= j < out@.len() ==> out@[j] == v@[v@.len() - 1 - j],
        decreases k,
    {
        out.push(v[k - 1]);
        k -= 1;
    }
    proof {
        assert(out@ =~= v@.reverse());
    }
    out
}

/// Run the aggregation scan over the buffer in its stored order.
fn aggregate_run(s: &Vec<u16>, aggregate: bool) -> (out: Vec<u16>)
    ensures
        out@ == spec_aggregate_run(s@, 0, 0, 0, true, aggregate, Seq::empty()),
{
    let ghost sv = s@;
    let mut acc: Vec<u16> = Vec::new();
    let mut prev: u16 = 0;
    let mut curr_link: u16 = 0;
    let mut possible = true;
    let mut i: usize = 0;
    while i < s.len()
        invariant
            sv == s@,
            i <= sv.len(),
            spec_aggregate_run(sv, 0, 0, 0, true, aggregate, Seq::empty())
                == spec_aggregate_run(
                sv,
                i as int,
                prev,
                curr_link,
                possible,
                aggregate,
                acc@,
            ),
        decreases sv.len() - i,
    {
        let prev_link = curr_link;
        let cl = get_link(&s[i]);
        if aggregate && ((prev_link | cl) & COMBINE) == COMBINE && possible && acc.len() > 0 {
            let m: u16 = if prev < s[i] {
                prev
            } else {
                s[i]
            };
            let combined: u16 = if 0x064C <= m && m <= 0x0651 {
                m - 0x064C + 0xFC5E
            } else {
                m
            };
            let last = acc.len() - 1;
            acc.set(last, combined);
            curr_link = get_link(&combined);
            possible = false;
        } else {
            acc.push(s[i]);
            prev = s[i];
            curr_link = cl;
            possible = true;
        }
        i += 1;
    }
    acc
}

/// The buffer with every Lam-Alef and tashkeel placeholder dropped.
pub open spec fn spec_strip_subs(s: Seq<u16>) -> Seq<u16>
    decreases s.len(),
{
    if s.len() == 0 {
        Seq::empty()
    } else {
        (if s[0] != LAMALEF_SPACE_SUB && s[0] != TASHKEEL_SPACE_SUB {
            seq![s[0]]
        } else {
            Seq::empty()
        }) + spec_strip_subs(s.drop_first())
    }
}

/// Copy the buffer, dropping every placeholder unit.
fn strip_subs(s: &Vec<u16>) -> (out: Vec<u16>)
    ensures
        out@ == spec_strip_subs(s@),
{
    let ghost sv = s@;
    let mut out: Vec<u16> = Vec::new();
    proof {
        assert(sv.skip(0) =~= sv);
        assert(Seq::<u16>::empty() + spec_strip_subs(sv) =~= spec_strip_subs(sv));
    }
    let mut i: usize = 0;
    while i < s.len()
        invariant
            sv == s@,
            i <= sv.len(),
            spec_strip_subs(sv) == out@ + spec_strip_subs(sv.skip(i as int)),
        decreases sv.len() - i,
    {
        let ghost o0 = out@;
        let c = s[i];
        if c != LAMALEF_SPACE_SUB && c != TASHKEEL_SPACE_SUB {
            out.push(c);
        }
        proof {
            assert(sv.skip(i as int).drop_first() =~= sv.skip(i + 1 as int));
            assert(spec_strip_subs(sv.skip(i as int)) == (if sv[i as int] != LAMALEF_SPACE_SUB
                && sv[i as int] != TASHKEEL_SPACE_SUB {
                seq![sv[i as int]]
            } else {
                Seq::<u16>::empty()
            }) + spec_strip_subs(sv.skip(i + 1 as int)));
            assert(o0 + ((if sv[i as int] != LAMALEF_SPACE_SUB && sv[i as int]
                != TASHKEEL_SPACE_SUB {
                seq![sv[i as int]]
            } else {
                Seq::<u16>::empty()
            }) + spec_strip_subs(sv.skip(i + 1 as int))) =~= out@ + spec_strip_subs(
                sv.skip(i + 1 as int),
            ));
        }
        i += 1;
    }
    proof {
        assert(sv.skip(sv.len() as int) =~= Seq::<u16>::empty());
        assert(out@ + spec_strip_subs(sv.skip(sv.len() as int)) =~= out@);
    }
    out
}

/// The Arabic shaper's whole pipeline on one buffer: the aggregation
/// pre-pass where asked for, normalisation of logical text to visual
/// order, the contextual walk with the tashkeel mode the options select,
/// tatweel substitution where asked for, the inverse normalisation, and
/// the removal of the placeholder units.
pub open spec fn spec_shape_arabic(s: Seq<u16>, options: u32) -> Seq<u16> {
    let logical = (options & U_SHAPE_TEXT_DIRECTION_MASK) == U_SHAPE_TEXT_DIRECTION_LOGICAL;
    let aggregate = (options & (U_SHAPE_AGGREGATE_TASHKEEL_MASK
        | U_SHAPE_LETTERS_SHAPE_TASHKEEL_ISOLATED)) == (U_SHAPE_AGGREGATE_TASHKEEL
        | U_SHAPE_LETTERS_SHAPE_TASHKEEL_ISOLATED);
    let source = if (options & U_SHAPE_AGGREGATE_TASHKEEL_MASK) != 0 {
        spec_aggregate(s, logical, aggregate)
    } else {
        s
    };
    let normalised = if logical {
        spec_invert(source, spec_spaces_countl(source), spec_spaces_countr(source))
    } else {
        source
    };
    let shaped = if (options & U_SHAPE_LETTERS_MASK) == U_SHAPE_LETTERS_SHAPE {
        if (options & U_SHAPE_TASHKEEL_MASK) > 0 && (options & U_SHAPE_TASHKEEL_MASK)
            != U_SHAPE_TASHKEEL_REPLACE_BY_TATWEEL {
            spec_shape_arabic_core(normalised, 2)
        } else {
            let walked = spec_shape_arabic_core(normalised, 1);
            if (options & U_SHAPE_TASHKEEL_MASK) == U_SHAPE_TASHKEEL_REPLACE_BY_TATWEEL {
                spec_handle_tatweel(walked)
            } else {
                walked
            }
        }
    } else if (options & U_SHAPE_LETTERS_MASK) == U_SHAPE_LETTERS_SHAPE_TASHKEEL_ISOLATED {
        spec_shape_arabic_core(normalised, 0)
    } else {
        normalised
    };
    let restored = if logical {
        spec_invert(shaped, spec_spaces_countl(shaped), spec_spaces_countr(shaped))
    } else {
        shaped
    };
    spec_strip_subs(restored)
}

/// The walk never changes a buffer whose units all have the empty link.
proof fn lemma_walk_run_inert(st: WalkState, flag: int)
    requires
        walk_wf(st),
        st.curr_link == 0,
        st.nx == NextPos::Unknown,
        forall|j: int| 0 <= j < st.buf.len() ==> spec_get_link(#[trigger] st.buf[j]) == 0,
    ensures
        spec_walk_run(st, flag) == st.buf,
    decreases spec_alef_count(st.buf), (if st.done {
        0int
    } else {
        st.i + 1
    }),
{
    if !st.done {
        reveal(spec_walk_step);
        lemma_walk_step_frame(st, flag);
        lemma_alef_count_nonneg(st.buf);
        assert(0u16 & 0xFF00 == 0) by (bit_vector);
        assert(0u16 & IRRELEVANT == 0) by (bit_vector);
        assert(spec_get_link(st.buf[st.i]) == 0);
        let st2 = spec_walk_step(st, flag);
        assert(st2.buf == st.buf);
        assert(st2.curr_link == 0 && st2.nx == NextPos::Unknown) by {
            assert(st2.done || spec_get_link(st.buf[st.i - 1]) == 0);
        }
        lemma_walk_run_inert(st2, flag);
    }
}

/// The contextual walk leaves a buffer of empty-link units unchanged.
pub proof fn lemma_shape_arabic_core_inert(s: Seq<u16>, flag: int)
    requires
        s.len() <= usize::MAX,
        forall|j: int| 0 <= j < s.len() ==> spec_get_link(#[trigger] s[j]) == 0,
    ensures
        spec_shape_arabic_core(s, flag) == s,
{
    if s.len() > 0 {
        let st = mk_state(
            s,
            s.len() - 1,
            s.len() - 1,
            0,
            0,
            spec_get_link(s[s.len() - 1]),
            NextPos::Unknown,
            0,
            false,
        );
        lemma_walk_run_inert(st, flag);
    }
}

/// Every position before the first non-space holds a space, and the first
/// non-space position holds none.
proof fn lemma_first_non_space_props(s: Seq<u16>, k: int)
    requires
        0 <= k <= s.len(),
    ensures
        k <= spec_first_non_space(s, k) <= s.len(),
        forall|j: int| k <= j < spec_first_non_space(s, k) ==> s[j] == SPACE_CHAR,
        spec_first_non_space(s, k) < s.len() ==> s[spec_first_non_space(s, k)] != SPACE_CHAR,
    decreases s.len() - k,
{
    if k < s.len() && s[k] == SPACE_CHAR {
        lemma_first_non_space_props(s, k + 1);
    }
}

/// Every position from the last non-space on holds a space, and the one
/// just before holds none.
proof fn lemma_last_non_space_props(s: Seq<u16>, j: int)
    requires
        0 <= j <= s.len(),
    ensures
        0 <= spec_last_non_space(s, j) <= j,
        forall|p: int| spec_last_non_space(s, j) <= p < j ==> s[p] == SPACE_CHAR,
        spec_last_non_space(s, j) > 0 ==> s[spec_last_non_space(s, j) - 1] != SPACE_CHAR,
    decreases j,
{
    if j > 0 && s[j - 1] == SPACE_CHAR {
        lemma_last_non_space_props(s, j - 1);
    }
}

/// The last non-space lies strictly past any position known not to hold a
/// space.
proof fn lemma_last_non_space_past(s: Seq<u16>, j: int, m: int)
    requires
        0 <= m < j <= s.len(),
        s[m] != SPACE_CHAR,
    ensures
        spec_last_non_space(s, j) >= m + 1,
    decreases j,
{
    if j > 0 && s[j - 1] == SPACE_CHAR {
        lemma_last_non_space_past(s, j - 1, m);
    }
}

/// The space margins never overlap.
pub proof fn lemma_space_margins(s: Seq<u16>)
    ensures
        0 <= spec_spaces_countl(s),
        0 <= spec_spaces_countr(s),
        spec_spaces_countl(s) + spec_spaces_countr(s) <= s.len(),
        spec_spaces_countl(s) < s.len() ==> s[spec_spaces_countl(s)] != SPACE_CHAR,
{
    lemma_first_non_space_props(s, 0);
    lemma_last_non_space_props(s, s.len() as int);
    let l = spec_spaces_countl(s);
    if l < s.len() {
        lemma_last_non_space_past(s, s.len() as int, l);
    }
}

/// Reversing between the space margins moves the margins nowhere, and
/// doing it twice restores the buffer.
proof fn lemma_invert_involution(s: Seq<u16>)
    ensures
        ({
            let l = spec_spaces_countl(s);
            let h = spec_spaces_countr(s);
            let t = spec_invert(s, l, h);
            spec_spaces_countl(t) == l && spec_spaces_countr(t) == h && spec_invert(t, l, h) == s
        }),
{
    let l = spec_spaces_countl(s);
    let h = spec_spaces_countr(s);
    let t = spec_invert(s, l, h);
    lemma_space_margins(s);
    lemma_first_non_space_props(s, 0);
    lemma_last_non_space_props(s, s.len() as int);
    if l >= s.len() {
        // the whole buffer is spaces: the reversed region is empty
        assert(t =~= s);
        assert(spec_invert(t, l, h) =~= s);
    } else {
        let e = spec_last_non_space(s, s.len() as int);
        assert(h == s.len() - e);
        // the margins of the reversed buffer are the same spaces
        assert(t[l] == s[s.len() - h - 1]);
        assert(s[e - 1] != SPACE_CHAR);
        assert forall|j: int| 0 <= j < l implies t[j] == SPACE_CHAR by {
            assert(t[j] == s[j]);
        }
        lemma_first_non_space_eq(t, 0, l);
        assert(spec_spaces_countl(t) == l);
        assert(t[s.len() - h - 1] == s[l]);
        assert forall|p: int| s.len() - h <= p < s.len() implies t[p] == SPACE_CHAR by {
            assert(t[p] == s[p]);
        }
        lemma_last_non_space_eq(t, s.len() as int, s.len() - h);
        assert(spec_spaces_countl(t) < t.len());
        assert(spec_spaces_countr(t) == h);
        assert(spec_invert(t, l, h) =~= s);
    }
}

/// A buffer whose first `l` units are spaces and whose unit at `l` is
/// none has `l` leading spaces.
proof fn lemma_first_non_space_eq(s: Seq<u16>, k: int, l: int)
    requires
        0 <= k <= l <= s.len(),
        forall|j: int| k <= j < l ==> s[j] == SPACE_CHAR,
        l == s.len() || s[l] != SPACE_CHAR,
    ensures
        spec_first_non_space(s, k) == l,
    decreases l - k,
{
    if k < l {
        lemma_first_non_space_eq(s, k + 1, l);
    }
}

/// A buffer whose units from `e` on are spaces and whose unit before `e`
/// is none ends its non-space text at `e`.
proof fn lemma_last_non_space_eq(s: Seq<u16>, j: int, e: int)
    requires
        0 <= e <= j <= s.len(),
        forall|p: int| e <= p < j ==> s[p] == SPACE_CHAR,
        e == 0 || s[e - 1] != SPACE_CHAR,
    ensures
        spec_last_non_space(s, j) == e,
    decreases j - e,
{
    if e < j {
        lemma_last_non_space_eq(s, j - 1, e);
    }
}

/// Stripping placeholders from a buffer that has none changes nothing.
proof fn lemma_strip_inert(s: Seq<u16>)
    requires
        forall|j: int| 0 <= j < s.len() ==> #[trigger] s[j] != LAMALEF_SPACE_SUB && s[j]
            != TASHKEEL_SPACE_SUB,
    ensures
        spec_strip_subs(s) == s,
    decreases s.len(),
{
    if s.len() > 0 {
        assert forall|j: int| 0 <= j < s.drop_first().len() implies #[trigger] s.drop_first()[j]
            != LAMALEF_SPACE_SUB && s.drop_first()[j] != TASHKEEL_SPACE_SUB by {
            assert(s.drop_first()[j] == s[j + 1]);
        }
        lemma_strip_inert(s.drop_first());
        assert(seq![s[0]] + s.drop_first() =~= s);
    }
}

/// Inertness: with the plain letter-shaping mode and no tashkeel or
/// aggregation options, a buffer whose units all have the empty link and
/// hold no placeholder passes through the Arabic shaper unchanged.
pub proof fn lemma_shape_arabic_inert(s: Seq<u16>, options: u32)
    requires
        s.len() <= usize::MAX,
        forall|j: int| 0 <= j < s.len() ==> spec_get_link(#[trigger] s[j]) == 0,
        forall|j: int| 0 <= j < s.len() ==> #[trigger] s[j] != LAMALEF_SPACE_SUB && s[j]
            != TASHKEEL_SPACE_SUB,
        (options & U_SHAPE_LETTERS_MASK) == U_SHAPE_LETTERS_SHAPE,
        (options & U_SHAPE_TASHKEEL_MASK) == 0,
        (options & U_SHAPE_AGGREGATE_TASHKEEL_MASK) == 0,
    ensures
        spec_shape_arabic(s, options) == s,
{
    let logical = (options & U_SHAPE_TEXT_DIRECTION_MASK) == U_SHAPE_TEXT_DIRECTION_LOGICAL;
    if logical {
        let l = spec_spaces_countl(s);
        let h = spec_spaces_countr(s);
        let t = spec_invert(s, l, h);
        lemma_space_margins(s);
        lemma_invert_involution(s);
        assert forall|j: int| 0 <= j < t.len() implies spec_get_link(#[trigger] t[j]) == 0 by {
            if l <= j < s.len() - h {
                assert(t[j] == s[l + (s.len() - h) - 1 - j]);
            } else {
                assert(t[j] == s[j]);
            }
        }
        lemma_shape_arabic_core_inert(t, 1);
        assert(spec_invert(t, spec_spaces_countl(t), spec_spaces_countr(t)) == s);
        lemma_strip_inert(s);
    } else {
        lemma_shape_arabic_core_inert(s, 1);
        lemma_strip_inert(s);
    }
}

/// Shape an Arabic buffer: select the contextual presentation form of
/// every letter, compose Lam-Alef ligatures, and handle the tashkeel as
/// the options ask, dropping the cells the ligatures freed.
pub fn shape_arabic(input: &[u16], options: &u32) -> (r: Vec<u16>)
    ensures
        r@ == spec_shape_arabic(input@, *options),
{
    let ghost s_in = input@;
    let ghost g_aggregate = (*options & (U_SHAPE_AGGREGATE_TASHKEEL_MASK
        | U_SHAPE_LETTERS_SHAPE_TASHKEEL_ISOLATED)) == (U_SHAPE_AGGREGATE_TASHKEEL
        | U_SHAPE_LETTERS_SHAPE_TASHKEEL_ISOLATED);
    let logical = (*options & U_SHAPE_TEXT_DIRECTION_MASK) == U_SHAPE_TEXT_DIRECTION_LOGICAL;
    // the aggregation pre-pass
    let mut source: Vec<u16>;
    if (*options & U_SHAPE_AGGREGATE_TASHKEEL_MASK) != 0 {
        let aggregate = (*options & (U_SHAPE_AGGREGATE_TASHKEEL_MASK
            | U_SHAPE_LETTERS_SHAPE_TASHKEEL_ISOLATED)) == (U_SHAPE_AGGREGATE_TASHKEEL
            | U_SHAPE_LETTERS_SHAPE_TASHKEEL_ISOLATED);
        let mut copy: Vec<u16> = Vec::new();
        copy.extend_from_slice(input);
        proof {
            assert(copy@ =~= input@);
        }
        if logical {
            source = aggregate_run(&copy, aggregate);
        } else {
            let rev = reversed_units(&copy);
            let agg = aggregate_run(&rev, aggregate);
            source = reversed_units(&agg);
        }
    } else {
        source = Vec::new();
        source.extend_from_slice(input);
        proof {
            assert(source@ =~= input@);
        }
    }
    proof {
        if (*options & U_SHAPE_AGGREGATE_TASHKEEL_MASK) != 0 {
            assert(source@ == spec_aggregate(s_in, logical, g_aggregate));
        } else {
            assert(source@ =~= s_in);
        }
    }
    let ghost g_source = if (*options & U_SHAPE_AGGREGATE_TASHKEEL_MASK) != 0 {
        spec_aggregate(s_in, logical, g_aggregate)
    } else {
        s_in
    };
    // the working buffer, sized by the resize options
    let output_size = calculate_size(&source, options);
    let mut output: Vec<u16> = Vec::with_capacity(
        if output_size > source.len() {
            output_size
        } else {
            source.len()
        },
    );
    output.extend_from_slice(source.as_slice());
    proof {
        assert(output@ =~= source@);
    }
    // normalise logical text to visual order
    let mut spaces_countl: usize = 0;
    let mut spaces_countr: usize = 0;
    if logical {
        count_spaces(&output, &mut spaces_countl, &mut spaces_countr);
        invert_buffer(&mut output, spaces_countl, spaces_countr);
    }
    let ghost g_norm = if logical {
        spec_invert(g_source, spec_spaces_countl(g_source), spec_spaces_countr(g_source))
    } else {
        g_source
    };
    proof {
        assert(output@ == g_norm);
    }
    // the contextual walk
    if (*options & U_SHAPE_LETTERS_MASK) == U_SHAPE_LETTERS_SHAPE {
        if (*options & U_SHAPE_TASHKEEL_MASK) > 0 && (*options & U_SHAPE_TASHKEEL_MASK)
            != U_SHAPE_TASHKEEL_REPLACE_BY_TATWEEL {
            // the walk itself removes the tashkeel
            shape_arabic_core(&mut output, 2);
        } else {
            shape_arabic_core(&mut output, 1);
            if (*options & U_SHAPE_TASHKEEL_MASK) == U_SHAPE_TASHKEEL_REPLACE_BY_TATWEEL {
                handle_tashkeel_with_tatweel(&mut output);
            }
        }
    } else if (*options & U_SHAPE_LETTERS_MASK) == U_SHAPE_LETTERS_SHAPE_TASHKEEL_ISOLATED {
        shape_arabic_core(&mut output, 0);
    }
    let ghost g_shaped = if (*options & U_SHAPE_LETTERS_MASK) == U_SHAPE_LETTERS_SHAPE {
        if (*options & U_SHAPE_TASHKEEL_MASK) > 0 && (*options & U_SHAPE_TASHKEEL_MASK)
            != U_SHAPE_TASHKEEL_REPLACE_BY_TATWEEL {
            spec_shape_arabic_core(g_norm, 2)
        } else {
            if (*options & U_SHAPE_TASHKEEL_MASK) == U_SHAPE_TASHKEEL_REPLACE_BY_TATWEEL {
                spec_handle_tatweel(spec_shape_arabic_core(g_norm, 1))
            } else {
                spec_shape_arabic_core(g_norm, 1)
            }
        }
    } else if (*options & U_SHAPE_LETTERS_MASK) == U_SHAPE_LETTERS_SHAPE_TASHKEEL_ISOLATED {
        spec_shape_arabic_core(g_norm, 0)
    } else {
        g_norm
    };
    proof {
        assert(output@ == g_shaped);
    }
    // restore logical order
    if logical {
        count_spaces(&output, &mut spaces_countl, &mut spaces_countr);
        invert_buffer(&mut output, spaces_countl, spaces_countr);
    }
    let ghost g_restored = if logical {
        spec_invert(g_shaped, spec_spaces_countl(g_shaped), spec_spaces_countr(g_shaped))
    } else {
        g_shaped
    };
    proof {
        assert(output@ == g_restored);
    }
    // drop the placeholders the ligatures and removals left behind
    strip_subs(&output)
}

} // verus!
