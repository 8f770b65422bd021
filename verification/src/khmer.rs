//! Khmer script: classification and shaping.

use vstd::prelude::*;
use crate::cluster::Category;
use crate::cluster::RuleSet;
use crate::cluster::Script;
use crate::cluster::lemma_shape_clusters_len;
use crate::cluster::lemma_vec_len_bound;
use crate::cluster::shape_with_rules;
use crate::cluster::spec_shape_clusters;
use crate::options::is_whitespace;
use crate::options::spec_is_whitespace;

verus! {

/// Whether `c` lies in the Khmer block.
pub open spec fn spec_is_khmer(c: u16) -> bool {
    0x1780 <= c && c <= 0x17FF
}

/// Check whether a character belongs to the Khmer script.
pub fn is_khmer(c: &u16) -> (r: bool)
    ensures
        r == spec_is_khmer(*c),
{
    0x1780 <= *c && *c <= 0x17FF
}

/// The Khmer category of one code unit.
pub open spec fn spec_khmer_category(c: u16) -> Category {
    if (0x1780 <= c && c <= 0x1782) || (0x1784 <= c && c <= 0x1787) || (0x1789 <= c && c <= 0x178C)
        || (0x178E <= c && c <= 0x1793) || (0x1795 <= c && c <= 0x1798) || (0x179B <= c && c
        <= 0x179D) || c == 0x17A0 || c == 0x17A2 {
        Category::C
    } else if c == 0x179A || c == 0x1783 || c == 0x1788 || c == 0x178D || c == 0x1794 || c == 0x1799
        || c == 0x179E || c == 0x179F || c == 0x17A1 {
        Category::C2
    } else if 0x17B4 <= c && c <= 0x17B5 {
        Category::V
    } else if 0x17A3 <= c && c <= 0x17B3 {
        Category::V2
    } else if (0x17B7 <= c && c <= 0x17BA) || c == 0x17BE {
        Category::VAbv
    } else if 0x17BB <= c && c <= 0x17BD {
        Category::VBlw
    } else if 0x17C1 <= c && c <= 0x17C3 {
        Category::VPre
    } else if c == 0x17B6 || c == 0x17BF || c == 0x17C0 || c == 0x17C4 || c == 0x17C5 {
        Category::VPst
    } else if c == 0x17D2 {
        Category::Coeng
    } else if 0x17C9 <= c && c <= 0x17CA {
        Category::RS
    } else if c == 0x17CC {
        Category::Robat
    } else if c == 0x17C6 || c == 0x17CB || (0x17CD <= c && c <= 0x17D1) || c == 0x17DD {
        Category::SAbv
    } else if 0x17C7 <= c && c <= 0x17C8 {
        Category::SPst
    } else if c == 0x17D3 {
        Category::SAbvN
    } else if (0x17D4 <= c && c <= 0x17DA) || c == 0x17DC || (0x19E0 <= c && c <= 0x19FF) {
        Category::P
    } else if c == 0x17DB {
        Category::Curr
    } else if (0x17E0 <= c && c <= 0x17E9) || (0x17F0 <= c && c <= 0x17F9) {
        Category::Num
    } else if (0x17DE <= c && c <= 0x17DF) || (0x17EA <= c && c <= 0x17EF) || (0x17FA <= c && c
        <= 0x17FF) {
        Category::R
    } else if c == 0x200D || c == 0x034F {
        Category::J
    } else if 0xFE00 <= c && c <= 0xFE0F {
        Category::VS
    } else if c == 0x2060 {
        Category::WJ
    } else if c == 0x200C {
        Category::NJ
    } else if spec_is_whitespace(c) {
        Category::WS
    } else {
        Category::O
    }
}

/// Classify one Khmer code unit.
pub fn khmer_category(c: u16) -> (r: Category)
    ensures
        r == spec_khmer_category(c),
{
    if (0x1780 <= c && c <= 0x1782) || (0x1784 <= c && c <= 0x1787) || (0x1789 <= c && c <= 0x178C)
        || (0x178E <= c && c <= 0x1793) || (0x1795 <= c && c <= 0x1798) || (0x179B <= c && c
        <= 0x179D) || c == 0x17A0 || c == 0x17A2 {
        Category::C
    } else if c == 0x179A || c == 0x1783 || c == 0x1788 || c == 0x178D || c == 0x1794 || c == 0x1799
        || c == 0x179E || c == 0x179F || c == 0x17A1 {
        Category::C2
    } else if 0x17B4 <= c && c <= 0x17B5 {
        Category::V
    } else if 0x17A3 <= c && c <= 0x17B3 {
        Category::V2
    } else if (0x17B7 <= c && c <= 0x17BA) || c == 0x17BE {
        Category::VAbv
    } else if 0x17BB <= c && c <= 0x17BD {
        Category::VBlw
    } else if 0x17C1 <= c && c <= 0x17C3 {
        Category::VPre
    } else if c == 0x17B6 || c == 0x17BF || c == 0x17C0 || c == 0x17C4 || c == 0x17C5 {
        Category::VPst
    } else if c == 0x17D2 {
        Category::Coeng
    } else if 0x17C9 <= c && c <= 0x17CA {
        Category::RS
    } else if c == 0x17CC {
        Category::Robat
    } else if c == 0x17C6 || c == 0x17CB || (0x17CD <= c && c <= 0x17D1) || c == 0x17DD {
        Category::SAbv
    } else if 0x17C7 <= c && c <= 0x17C8 {
        Category::SPst
    } else if c == 0x17D3 {
        Category::SAbvN
    } else if (0x17D4 <= c && c <= 0x17DA) || c == 0x17DC || (0x19E0 <= c && c <= 0x19FF) {
        Category::P
    } else if c == 0x17DB {
        Category::Curr
    } else if (0x17E0 <= c && c <= 0x17E9) || (0x17F0 <= c && c <= 0x17F9) {
        Category::Num
    } else if (0x17DE <= c && c <= 0x17DF) || (0x17EA <= c && c <= 0x17EF) || (0x17FA <= c && c
        <= 0x17FF) {
        Category::R
    } else if c == 0x200D || c == 0x034F {
        Category::J
    } else if 0xFE00 <= c && c <= 0xFE0F {
        Category::VS
    } else if c == 0x2060 {
        Category::WJ
    } else if c == 0x200C {
        Category::NJ
    } else if is_whitespace(c) {
        Category::WS
    } else {
        Category::O
    }
}

/// Shape Khmer text: pre-base vowels move to the cluster's start.
pub fn shape_khmer(input: &mut Vec<u16>)
    ensures
        final(input)@ == spec_shape_clusters(old(input)@, Script::Khmer, RuleSet::PreBase),
        final(input)@.len() == old(input)@.len(),
{
    proof {
        lemma_vec_len_bound(&*input);
    }
    shape_with_rules(input, Script::Khmer, RuleSet::PreBase);
    proof {
        lemma_shape_clusters_len(old(input)@, Script::Khmer, RuleSet::PreBase);
    }
}

} // verus!
