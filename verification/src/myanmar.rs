//! Myanmar script: classification and shaping.

use vstd::prelude::*;
use crate::cluster::Category;
use crate::cluster::RuleSet;
use crate::cluster::Script;
use crate::cluster::lemma_shape_clusters_len;
use crate::cluster::lemma_vec_len_bound;
use crate::cluster::shape_with_rules;
use crate::cluster::spec_shape_clusters;
use crate::options::is_whitespace;
use crate::options::spec_is_whitespace;

verus! {

/// Whether `c` lies in the Myanmar main, extended A or extended B block.
pub open spec fn spec_is_myanmar(c: u16) -> bool {
    (0x1000 <= c && c <= 0x109F) || (0xAA60 <= c && c <= 0xAA7F) || (0xA9E0 <= c && c <= 0xA9FF)
}

/// Check whether a character belongs to the Myanmar script.
pub fn is_myanmar(c: &u16) -> (r: bool)
    ensures
        r == spec_is_myanmar(*c),
{
    (0x1000 <= *c && *c <= 0x109F) || (0xAA60 <= *c && *c <= 0xAA7F) || (0xA9E0 <= *c && *c
        <= 0xA9FF)
}

/// The Myanmar category of one code unit.  With `kinzi` set (the two
/// following units are asat and virama) the kinzi-leading letters form a
/// kinzi sequence.
pub open spec fn spec_myanmar_category(c: u16, kinzi: bool) -> Category {
    if kinzi && (c == 0x1004 || c == 0x101B || c == 0x105A) {
        Category::K
    } else if c == 0x1032 || c == 0x1036 {
        Category::A
    } else if (0x1000 <= c && c <= 0x1020) || c == 0x103F || c == 0x104E || c == 0x1050 || c
        == 0x1051 || (0x105A <= c && c <= 0x105D) || c == 0x1061 || c == 0x1065 || c == 0x1066 || (
    0x106E <= c && c <= 0x1070) || (0x1075 <= c && c <= 0x1081) || c == 0x108E || (0xAA60 <= c && c
        <= 0xAA6F) || (0xAA71 <= c && c <= 0xAA76) || c == 0xAA7A {
        Category::C
    } else if c == 0x103C {
        Category::MR
    } else if c == 0x102F || c == 0x1030 || c == 0x1058 || c == 0x1059 {
        Category::VBlw
    } else if c == 0x1031 || c == 0x1084 {
        Category::VPre
    } else if spec_is_whitespace(c) {
        Category::WS
    } else {
        Category::O
    }
}

/// Classify one Myanmar code unit.
pub fn myanmar_category(c: u16, kinzi: bool) -> (r: Category)
    ensures
        r == spec_myanmar_category(c, kinzi),
{
    if kinzi && (c == 0x1004 || c == 0x101B || c == 0x105A) {
        Category::K
    } else if c == 0x1032 || c == 0x1036 {
        Category::A
    } else if (0x1000 <= c && c <= 0x1020) || c == 0x103F || c == 0x104E || c == 0x1050 || c
        == 0x1051 || (0x105A <= c && c <= 0x105D) || c == 0x1061 || c == 0x1065 || c == 0x1066 || (
    0x106E <= c && c <= 0x1070) || (0x1075 <= c && c <= 0x1081) || c == 0x108E || (0xAA60 <= c && c
        <= 0xAA6F) || (0xAA71 <= c && c <= 0xAA76) || c == 0xAA7A {
        Category::C
    } else if c == 0x103C {
        Category::MR
    } else if c == 0x102F || c == 0x1030 || c == 0x1058 || c == 0x1059 {
        Category::VBlw
    } else if c == 0x1031 || c == 0x1084 {
        Category::VPre
    } else if is_whitespace(c) {
        Category::WS
    } else {
        Category::O
    }
}

/// Shape Myanmar text: kinzi sequences move directly after the cluster
/// base, the medial Ra moves before the base consonant, pre-base vowels
/// move to the cluster's start, and an anusvara after below-base vowels
/// moves in front of them.
pub fn shape_myanmar(input: &mut Vec<u16>)
    ensures
        final(input)@ == spec_shape_clusters(old(input)@, Script::Myanmar, RuleSet::Myanmar),
        final(input)@.len() == old(input)@.len(),
{
    proof {
        lemma_vec_len_bound(&*input);
    }
    shape_with_rules(input, Script::Myanmar, RuleSet::Myanmar);
    proof {
        lemma_shape_clusters_len(old(input)@, Script::Myanmar, RuleSet::Myanmar);
    }
}

} // verus!
