//! Tibetan script: classification and shaping.

use vstd::prelude::*;
use crate::cluster::Category;
use crate::cluster::RuleSet;
use crate::cluster::Script;
use crate::cluster::lemma_shape_clusters_len;
use crate::cluster::lemma_vec_len_bound;
use crate::cluster::shape_with_rules;
use crate::cluster::spec_shape_clusters;
use crate::options::is_whitespace;
use crate::options::spec_is_whitespace;

verus! {

/// Whether `c` lies in the Tibetan block.
pub open spec fn spec_is_tibetan(c: u16) -> bool {
    0x0F00 <= c && c <= 0x0FFF
}

/// Check whether a character belongs to the Tibetan script.
pub fn is_tibetan(c: &u16) -> (r: bool)
    ensures
        r == spec_is_tibetan(*c),
{
    0x0F00 <= *c && *c <= 0x0FFF
}

/// The Tibetan category of one code unit: head letters are the bases,
/// and the above-base, below-base and compound vowel marks are the three
/// kinds of dependent vowel sign that relocate.
pub open spec fn spec_tibetan_category(c: u16) -> Category {
    if (0x0F40 <= c && c <= 0x0F6C) || (0x0F88 <= c && c <= 0x0F8C) {
        Category::C
    } else if c == 0x0F72 || (0x0F7A <= c && c <= 0x0F7D) || c == 0x0F80 {
        Category::VAbv
    } else if c == 0x0F71 || c == 0x0F74 {
        Category::VBlw
    } else if c == 0x0F73 || (0x0F75 <= c && c <= 0x0F79) || c == 0x0F81 {
        Category::VPst
    } else if spec_is_whitespace(c) {
        Category::WS
    } else {
        Category::O
    }
}

/// Classify one Tibetan code unit.
pub fn tibetan_category(c: u16) -> (r: Category)
    ensures
        r == spec_tibetan_category(c),
{
    if (0x0F40 <= c && c <= 0x0F6C) || (0x0F88 <= c && c <= 0x0F8C) {
        Category::C
    } else if c == 0x0F72 || (0x0F7A <= c && c <= 0x0F7D) || c == 0x0F80 {
        Category::VAbv
    } else if c == 0x0F71 || c == 0x0F74 {
        Category::VBlw
    } else if c == 0x0F73 || (0x0F75 <= c && c <= 0x0F79) || c == 0x0F81 {
        Category::VPst
    } else if is_whitespace(c) {
        Category::WS
    } else {
        Category::O
    }
}

/// Shape Tibetan text: each vowel mark moves in front of the nearest
/// preceding head letter; a mark with no head letter before it in its
/// cluster stays in place.
pub fn shape_tibetan(input: &mut Vec<u16>)
    ensures
        final(input)@ == spec_shape_clusters(old(input)@, Script::Tibetan, RuleSet::VowelSigns),
        final(input)@.len() == old(input)@.len(),
{
    proof {
        lemma_vec_len_bound(&*input);
    }
    shape_with_rules(input, Script::Tibetan, RuleSet::VowelSigns);
    proof {
        lemma_shape_clusters_len(old(input)@, Script::Tibetan, RuleSet::VowelSigns);
    }
}

} // verus!
