//! Javanese script: classification and shaping.

use vstd::prelude::*;
use crate::cluster::Category;
use crate::cluster::RuleSet;
use crate::cluster::Script;
use crate::cluster::lemma_shape_clusters_len;
use crate::cluster::lemma_vec_len_bound;
use crate::cluster::shape_with_rules;
use crate::cluster::spec_shape_clusters;
use crate::options::is_whitespace;
use crate::options::spec_is_whitespace;

verus! {

/// Whether `c` lies in the Javanese block.
pub open spec fn spec_is_javanese(c: u16) -> bool {
    0xA980 <= c && c <= 0xA9DF
}

/// Check whether a character belongs to the Javanese script.
pub fn is_javanese(c: &u16) -> (r: bool)
    ensures
        r == spec_is_javanese(*c),
{
    0xA980 <= *c && *c <= 0xA9DF
}

/// The Javanese category of one code unit.
pub open spec fn spec_javanese_category(c: u16) -> Category {
    if c == 0xA984 || (0xA989 <= c && c <= 0xA98B) || (0xA98F <= c && c <= 0xA9B2) {
        Category::C
    } else if c == 0x00A0 || c == 0x00D7 || (0x2012 <= c && c <= 0x2015) || c == 0x2022 || c
        == 0x25CC || (0x25FB <= c && c <= 0x25FE) {
        Category::GB
    } else if c == 0xA9C0 {
        Category::H
    } else if (0xA985 <= c && c <= 0xA988) || (0xA98C <= c && c <= 0xA98E) {
        Category::IV
    } else if c == 0x200D || c == 0x034F {
        Category::J
    } else if 0xA980 <= c && c <= 0xA983 {
        Category::M
    } else if c == 0xA9BF {
        Category::MR
    } else if c == 0xA9BE {
        Category::MY
    } else if c == 0xA9B3 {
        Category::N
    } else if 0xA9C1 <= c && c <= 0xA9CD {
        Category::P
    } else if c == 0xA9CE || (0xA9DA <= c && c <= 0xA9DD) {
        Category::R
    } else if c == 0xA9CF || c == 0xA9DE || c == 0xA9DF {
        Category::S
    } else if c == 0xA9B6 || c == 0xA9B7 || c == 0xA9BC {
        Category::VAbv
    } else if c == 0xA9B8 || c == 0xA9B9 {
        Category::VBlw
    } else if c == 0xA9BA || c == 0xA9BB {
        Category::VPre
    } else if c == 0xA9B4 || c == 0xA9B5 || c == 0xA9BD {
        Category::VPst
    } else if 0xFE00 <= c && c <= 0xFE0F {
        Category::VS
    } else if c == 0x2060 {
        Category::WJ
    } else if c == 0x200C {
        Category::NJ
    } else if spec_is_whitespace(c) {
        Category::WS
    } else {
        Category::O
    }
}

/// Classify one Javanese code unit.
pub fn javanese_category(c: u16) -> (r: Category)
    ensures
        r == spec_javanese_category(c),
{
    if c == 0xA984 || (0xA989 <= c && c <= 0xA98B) || (0xA98F <= c && c <= 0xA9B2) {
        Category::C
    } else if c == 0x00A0 || c == 0x00D7 || (0x2012 <= c && c <= 0x2015) || c == 0x2022 || c
        == 0x25CC || (0x25FB <= c && c <= 0x25FE) {
        Category::GB
    } else if c == 0xA9C0 {
        Category::H
    } else if (0xA985 <= c && c <= 0xA988) || (0xA98C <= c && c <= 0xA98E) {
        Category::IV
    } else if c == 0x200D || c == 0x034F {
        Category::J
    } else if 0xA980 <= c && c <= 0xA983 {
        Category::M
    } else if c == 0xA9BF {
        Category::MR
    } else if c == 0xA9BE {
        Category::MY
    } else if c == 0xA9B3 {
        Category::N
    } else if 0xA9C1 <= c && c <= 0xA9CD {
        Category::P
    } else if c == 0xA9CE || (0xA9DA <= c && c <= 0xA9DD) {
        Category::R
    } else if c == 0xA9CF || c == 0xA9DE || c == 0xA9DF {
        Category::S
    } else if c == 0xA9B6 || c == 0xA9B7 || c == 0xA9BC {
        Category::VAbv
    } else if c == 0xA9B8 || c == 0xA9B9 {
        Category::VBlw
    } else if c == 0xA9BA || c == 0xA9BB {
        Category::VPre
    } else if c == 0xA9B4 || c == 0xA9B5 || c == 0xA9BD {
        Category::VPst
    } else if 0xFE00 <= c && c <= 0xFE0F {
        Category::VS
    } else if c == 0x2060 {
        Category::WJ
    } else if c == 0x200C {
        Category::NJ
    } else if is_whitespace(c) {
        Category::WS
    } else {
        Category::O
    }
}

/// Shape Javanese text: pre-base vowels move to the cluster's start.
pub fn shape_javanese(input: &mut Vec<u16>)
    ensures
        final(input)@ == spec_shape_clusters(old(input)@, Script::Javanese, RuleSet::PreBase),
        final(input)@.len() == old(input)@.len(),
{
    proof {
        lemma_vec_len_bound(&*input);
    }
    shape_with_rules(input, Script::Javanese, RuleSet::PreBase);
    proof {
        lemma_shape_clusters_len(old(input)@, Script::Javanese, RuleSet::PreBase);
    }
}

} // verus!
