//! Buginese script: classification and shaping.

use vstd::prelude::*;
use crate::cluster::Category;
use crate::cluster::RuleSet;
use crate::cluster::Script;
use crate::cluster::lemma_shape_clusters_len;
use crate::cluster::lemma_vec_len_bound;
use crate::cluster::shape_with_rules;
use crate::cluster::spec_shape_clusters;

verus! {

/// Whether `c` is one of the space-like characters that end a Buginese
/// cluster: the shared list without the Tibetan delimiter.
pub open spec fn spec_is_buginese_whitespace(c: u16) -> bool {
    c == 0x0020 || c == 0x0009 || c == 0x000A || c == 0x000D || c == 0x000C || c == 0x0085 || c
        == 0x3000 || c == 0x200B || c == 0x00A0 || c == 0x202F || c == 0x2060 || c == 0xFEFF
}

/// Check whether a character ends a Buginese cluster.
pub fn is_buginese_whitespace(c: u16) -> (r: bool)
    ensures
        r == spec_is_buginese_whitespace(c),
{
    c == 0x0020 || c == 0x0009 || c == 0x000A || c == 0x000D || c == 0x000C || c == 0x0085 || c
        == 0x3000 || c == 0x200B || c == 0x00A0 || c == 0x202F || c == 0x2060 || c == 0xFEFF
}

/// Whether `c` lies in the Buginese block.
pub open spec fn spec_is_buginese(c: u16) -> bool {
    0x1A00 <= c && c <= 0x1A1F
}

/// Check whether a character belongs to the Buginese script.
pub fn is_buginese(c: &u16) -> (r: bool)
    ensures
        r == spec_is_buginese(*c),
{
    0x1A00 <= *c && *c <= 0x1A1F
}

/// The Buginese category of one code unit.
pub open spec fn spec_buginese_category(c: u16) -> Category {
    if 0x1A00 <= c && c <= 0x1A16 {
        Category::C
    } else if c == 0x00A0 || c == 0x00D7 || (0x2012 <= c && c <= 0x2015) || c == 0x2022 || c
        == 0x25CC || (0x25FB <= c && c <= 0x25FE) {
        Category::GB
    } else if c == 0x200D || c == 0x034F {
        Category::J
    } else if c == 0x1A1C || c == 0x1A1D {
        Category::R
    } else if c == 0x1A1E || c == 0x1A1F || c == 0xA9CF {
        Category::S
    } else if c == 0x1A17 || c == 0x1A1B {
        Category::VAbv
    } else if c == 0x1A18 {
        Category::VBlw
    } else if c == 0x1A19 {
        Category::VPre
    } else if c == 0x1A1A {
        Category::VPst
    } else if 0xFE00 <= c && c <= 0xFE0F {
        Category::VS
    } else if c == 0x2060 {
        Category::WJ
    } else if spec_is_buginese_whitespace(c) {
        Category::WS
    } else {
        Category::O
    }
}

/// Classify one Buginese code unit.
pub fn buginese_category(c: u16) -> (r: Category)
    ensures
        r == spec_buginese_category(c),
{
    if 0x1A00 <= c && c <= 0x1A16 {
        Category::C
    } else if c == 0x00A0 || c == 0x00D7 || (0x2012 <= c && c <= 0x2015) || c == 0x2022 || c
        == 0x25CC || (0x25FB <= c && c <= 0x25FE) {
        Category::GB
    } else if c == 0x200D || c == 0x034F {
        Category::J
    } else if c == 0x1A1C || c == 0x1A1D {
        Category::R
    } else if c == 0x1A1E || c == 0x1A1F || c == 0xA9CF {
        Category::S
    } else if c == 0x1A17 || c == 0x1A1B {
        Category::VAbv
    } else if c == 0x1A18 {
        Category::VBlw
    } else if c == 0x1A19 {
        Category::VPre
    } else if c == 0x1A1A {
        Category::VPst
    } else if 0xFE00 <= c && c <= 0xFE0F {
        Category::VS
    } else if c == 0x2060 {
        Category::WJ
    } else if is_buginese_whitespace(c) {
        Category::WS
    } else {
        Category::O
    }
}

/// Shape Buginese text: pre-base vowels move to the cluster's start, and
/// the other dependent vowel signs move in front of the nearest preceding
/// base.
pub fn shape_buginese(input: &mut Vec<u16>)
    ensures
        final(input)@ == spec_shape_clusters(old(input)@, Script::Buginese, RuleSet::PreBaseAndVowelSigns),
        final(input)@.len() == old(input)@.len(),
{
    proof {
        lemma_vec_len_bound(&*input);
    }
    shape_with_rules(input, Script::Buginese, RuleSet::PreBaseAndVowelSigns);
    proof {
        lemma_shape_clusters_len(old(input)@, Script::Buginese, RuleSet::PreBaseAndVowelSigns);
    }
}

} // verus!
