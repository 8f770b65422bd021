//! The shared swap-based shaper and the shaping entry point.

use vstd::prelude::*;
use vstd::pervasive::VecAdditionalExecFns;
use crate::arabic::lemma_shape_arabic_inert;
use crate::arabic::shape_arabic;
use crate::arabic::spec_get_link;
use crate::arabic::spec_shape_arabic;
use crate::cluster::lemma_shape_clusters_inert;
use crate::cluster::unit_moves;
use crate::cluster::RuleSet;
use crate::cluster::Script;
use crate::cluster::shape_with_rules;
use crate::cluster::spec_shape_clusters;
use crate::javanese::shape_javanese;
use crate::khmer::shape_khmer;
use crate::myanmar::shape_myanmar;
use crate::options::LAMALEF_SPACE_SUB;
use crate::options::TASHKEEL_SPACE_SUB;
use crate::options::U_SHAPE_AGGREGATE_TASHKEEL_MASK;
use crate::options::U_SHAPE_DIRECTION_OUTPUT_BIDI;
use crate::options::U_SHAPE_LETTERS_MASK;
use crate::options::U_SHAPE_LETTERS_SHAPE;
use crate::options::U_SHAPE_TASHKEEL_MASK;
use crate::tamil::TAMIL_VOWELS;
use crate::tamil::shape_tamil;
use crate::tibetan::shape_tibetan;
use crate::ubidi::lemma_process_bidi_inert;
use crate::ubidi::process_bidi_text;
use crate::ubidi::spec_is_rtl;
use crate::ubidi::spec_process_bidi;

verus! {

/// One step of the swap-based shaper: if the unit at `i` belongs to the
/// comparison set, it changes place with its immediate predecessor.
pub open spec fn spec_shared_step(s: Seq<u16>, comp: Seq<u16>, i: int) -> Seq<u16> {
    if comp.contains(s[i]) {
        s.update(i - 1, s[i]).update(i, s[i - 1])
    } else {
        s
    }
}

/// The buffer after the swap-based shaper has processed positions
/// `i, i + 1, ...` up to the end.
pub open spec fn spec_shared_run(s: Seq<u16>, comp: Seq<u16>, i: int) -> Seq<u16>
    decreases s.len() - i,
{
    if i < 1 || i >= s.len() {
        s
    } else {
        proof {
            lemma_shared_step_len(s, comp, i);
        }
        spec_shared_run(spec_shared_step(s, comp, i), comp, i + 1)
    }
}

/// The swap-based shaper, over the whole buffer.
pub open spec fn spec_shared_shaper(s: Seq<u16>, comp: Seq<u16>) -> Seq<u16> {
    spec_shared_run(s, comp, 1)
}

/// One step keeps the buffer's length.
pub proof fn lemma_shared_step_len(s: Seq<u16>, comp: Seq<u16>, i: int)
    requires
        1 <= i < s.len(),
    ensures
        spec_shared_step(s, comp, i).len() == s.len(),
{
}

/// Length preservation: the swap-based shaper never changes the number of
/// code units, whatever the input and the comparison set.
pub proof fn lemma_shared_shaper_len(s: Seq<u16>, comp: Seq<u16>)
    ensures
        spec_shared_shaper(s, comp).len() == s.len(),
{
    lemma_shared_run_len(s, comp, 1);
}

/// Length preservation for every suffix of the run.
pub proof fn lemma_shared_run_len(s: Seq<u16>, comp: Seq<u16>, i: int)
    ensures
        spec_shared_run(s, comp, i).len() == s.len(),
    decreases s.len() - i,
{
    if 1 <= i < s.len() {
        lemma_shared_step_len(s, comp, i);
        lemma_shared_run_len(spec_shared_step(s, comp, i), comp, i + 1);
    }
}

/// A buffer without units of the comparison set is left alone, from
/// position `i` on.
proof fn lemma_shared_run_inert(s: Seq<u16>, comp: Seq<u16>, i: int)
    requires
        forall|k: int| 0 <= k < s.len() ==> !comp.contains(#[trigger] s[k]),
    ensures
        spec_shared_run(s, comp, i) == s,
    decreases s.len() - i,
{
    if 1 <= i < s.len() {
        assert(!comp.contains(s[i]));
        assert(spec_shared_step(s, comp, i) == s);
        lemma_shared_run_inert(s, comp, i + 1);
    }
}

/// Inertness: the swap-based shaper leaves a buffer alone when none of
/// its units belongs to the comparison set.
pub proof fn lemma_shared_shaper_inert(s: Seq<u16>, comp: Seq<u16>)
    requires
        forall|k: int| 0 <= k < s.len() ==> !comp.contains(#[trigger] s[k]),
    ensures
        spec_shared_shaper(s, comp) == s,
{
    lemma_shared_run_inert(s, comp, 1);
}

/// Whether the slice holds the given unit.
fn contains_unit(comp: &[u16], v: u16) -> (r: bool)
    ensures
        r == comp@.contains(v),
{
    let mut j: usize = 0;
    while j < comp.len()
        invariant
            j <= comp@.len(),
            forall|k: int| 0 <= k < j ==> comp@[k] != v,
        decreases comp@.len() - j,
    {
        if comp[j] == v {
            assert(comp@.contains(v));
            return true;
        }
        j += 1;
    }
    assert(!comp@.contains(v));
    false
}

/// Swap each unit of the comparison set with its immediate predecessor,
/// scanning left to right.  Several languages share this shaper.
pub fn shared_shaper(input: &mut Vec<u16>, comparitor: &[u16])
    ensures
        final(input)@ == spec_shared_shaper(old(input)@, comparitor@),
        final(input)@.len() == old(input)@.len(),
{
    let ghost s0 = input@;
    let mut i: usize = 1;
    while i < input.len()
        invariant
            1 <= i,
            i <= input@.len() || input@.len() < 1,
            input@.len() == s0.len(),
            spec_shared_run(s0, comparitor@, 1) == spec_shared_run(input@, comparitor@, i as int),
        decreases input@.len() - i,
    {
        let ghost sv = input@;
        if contains_unit(comparitor, input[i]) {
            let a = input[i - 1];
            let b = input[i];
            input.set(i - 1, b);
            input.set(i, a);
        }
        proof {
            assert(input@ == spec_shared_step(sv, comparitor@, i as int));
            assert(spec_shared_run(sv, comparitor@, i as int) == spec_shared_run(
                input@,
                comparitor@,
                i + 1 as int,
            ));
        }
        i += 1;
    }
    proof {
        lemma_shared_shaper_len(s0, comparitor@);
    }
}

/// The buffer after every shaping stage: the Arabic shaper, the cluster
/// passes of the Brahmic-family scripts in their fixed order, and the
/// Tamil swaps.  The orchestrator's Buginese pass moves only pre-base
/// vowels, like the Javanese and Khmer passes.
pub open spec fn spec_shape_stages(s: Seq<u16>, options: u32) -> Seq<u16> {
    let a = spec_shape_arabic(s, options);
    let b = spec_shape_clusters(a, Script::Buginese, RuleSet::PreBase);
    let c = spec_shape_clusters(b, Script::Javanese, RuleSet::PreBase);
    let d = spec_shape_clusters(c, Script::Myanmar, RuleSet::Myanmar);
    let e = spec_shared_shaper(d, TAMIL_VOWELS@);
    let f = spec_shape_clusters(e, Script::Tibetan, RuleSet::VowelSigns);
    spec_shape_clusters(f, Script::Khmer, RuleSet::PreBase)
}

/// The shaped buffer for the given options: the shaping stages where a
/// letter-shaping mode is selected, then the bidirectional reordering
/// where the output option asks for it.
pub open spec fn spec_shape_unicode(s: Seq<u16>, options: u32) -> Seq<u16> {
    let shaped = if options & U_SHAPE_LETTERS_MASK != 0 {
        spec_shape_stages(s, options)
    } else {
        s
    };
    if (options & U_SHAPE_DIRECTION_OUTPUT_BIDI) != 0 {
        spec_process_bidi(shaped)
    } else {
        shaped
    }
}

/// Shape a buffer of UTF-16 text for display: contextual Arabic shaping,
/// the cluster-reordering passes of the Brahmic-family scripts, the Tamil
/// swaps, and finally the bidirectional reordering where the options ask
/// for it.
pub fn shape_unicode(source: &[u16], options: &u32) -> (r: Vec<u16>)
    ensures
        r@ == spec_shape_unicode(source@, *options),
{
    let mut output: Vec<u16> = Vec::new();
    output.extend_from_slice(source);
    proof {
        assert(output@ =~= source@);
    }
    if *options & U_SHAPE_LETTERS_MASK != 0 {
        // Arabic shaping
        let shaped = shape_arabic(output.as_slice(), options);
        output = shaped;
        // Buginese: the orchestrator moves only pre-base vowels here
        shape_with_rules(&mut output, Script::Buginese, RuleSet::PreBase);
        // Javanese shaping
        shape_javanese(&mut output);
        // Myanmar shaping
        shape_myanmar(&mut output);
        // Tamil shaping
        shape_tamil(&mut output);
        // Tibetan shaping
        shape_tibetan(&mut output);
        // Khmer shaping
        shape_khmer(&mut output);
    }
    // reorder the output where the bidirectional option is set
    if (*options & U_SHAPE_DIRECTION_OUTPUT_BIDI) != 0 {
        return process_bidi_text(output.as_slice());
    }
    output
}

/// A unit the whole pipeline leaves in place: it carries no Arabic link,
/// reads left to right, is no hard line break or placeholder, begins no
/// moving definition in any script's pass, and is no Tamil vowel.
pub open spec fn spec_shaping_inert(c: u16) -> bool {
    spec_get_link(c) == 0 && !spec_is_rtl(c) && c != 0x000A && c != 0x000D && c
        != LAMALEF_SPACE_SUB && c != TASHKEEL_SPACE_SUB && !unit_moves(
        Script::Myanmar,
        RuleSet::Myanmar,
        c,
    ) && !unit_moves(Script::Buginese, RuleSet::PreBase, c) && !unit_moves(
        Script::Javanese,
        RuleSet::PreBase,
        c,
    ) && !unit_moves(Script::Khmer, RuleSet::PreBase, c) && !unit_moves(
        Script::Tibetan,
        RuleSet::VowelSigns,
        c,
    ) && !TAMIL_VOWELS@.contains(c)
}

/// Idempotence of non-directional shaping: an already-left-to-right
/// buffer of shaping-inert units comes back unchanged under the plain
/// letter-shaping mode without tashkeel or aggregation options, whatever
/// the direction and bidirectional-output options say.
pub proof fn lemma_shape_unicode_inert(s: Seq<u16>, options: u32)
    requires
        s.len() <= usize::MAX,
        forall|k: int| 0 <= k < s.len() ==> spec_shaping_inert(#[trigger] s[k]),
        (options & U_SHAPE_LETTERS_MASK) == U_SHAPE_LETTERS_SHAPE,
        (options & U_SHAPE_TASHKEEL_MASK) == 0,
        (options & U_SHAPE_AGGREGATE_TASHKEEL_MASK) == 0,
    ensures
        spec_shape_unicode(s, options) == s,
{
    lemma_shape_arabic_inert(s, options);
    lemma_shape_clusters_inert(s, Script::Buginese, RuleSet::PreBase);
    lemma_shape_clusters_inert(s, Script::Javanese, RuleSet::PreBase);
    lemma_shape_clusters_inert(s, Script::Myanmar, RuleSet::Myanmar);
    lemma_shared_shaper_inert(s, TAMIL_VOWELS@);
    lemma_shape_clusters_inert(s, Script::Tibetan, RuleSet::VowelSigns);
    lemma_shape_clusters_inert(s, Script::Khmer, RuleSet::PreBase);
    assert(spec_shape_stages(s, options) == s);
    if (options & U_SHAPE_DIRECTION_OUTPUT_BIDI) != 0 {
        lemma_process_bidi_inert(s);
    }
}

} // verus!
