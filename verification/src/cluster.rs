//! The shared cluster engine of the Brahmic-family shapers.
//!
//! Every script shaper works the same way: classify each code unit, group
//! units into definitions (maximal same-category runs, or single units,
//! depending on the script), split the definitions into clusters at
//! whitespace and non-joiner boundaries, move certain definitions inside
//! each cluster by the script's rules, and write the cluster back as the
//! concatenation of its definitions' original code units.

use vstd::prelude::*;
use crate::buginese::spec_buginese_category;
use crate::javanese::spec_javanese_category;
use crate::khmer::spec_khmer_category;
use crate::myanmar::spec_myanmar_category;
use crate::tibetan::spec_tibetan_category;

verus! {

/// The classification of one code unit (or of one definition).  The engine
/// shares one category type across the scripts; each script's classifier
/// uses the variants that its rules distinguish.
#[derive(Clone, Copy, PartialEq, Eq, Structural, Debug)]
pub enum Category {
    /// Anusvara.
    A,
    /// Consonant or other base letter.
    C,
    /// Consonant of the second subscript kind.
    C2,
    /// Coeng (subscripting sign).
    Coeng,
    /// Currency symbol.
    Curr,
    /// Generic base character.
    GB,
    /// Halant / virama.
    H,
    /// Independent vowel.
    IV,
    /// Joiner: extends the current run without changing its category.
    J,
    /// A kinzi sequence of three code units.
    K,
    /// Modifier.
    M,
    /// Medial consonant Ra.
    MR,
    /// Medial consonant Ya.
    MY,
    /// Nukta.
    N,
    /// Non-joiner: ends the cluster like whitespace.
    NJ,
    /// Number.
    Num,
    /// Anything with no role in the script at hand.
    O,
    /// Punctuation.
    P,
    /// Reserved code points of the script's block.
    R,
    /// Register shifter.
    RS,
    /// Robat.
    Robat,
    /// Symbol.
    S,
    /// Above-base sign.
    SAbv,
    /// Above-base sign for numbers.
    SAbvN,
    /// Post-base sign.
    SPst,
    /// Independent vowel of the first kind.
    V,
    /// Independent vowel of the subscript kind.
    V2,
    /// Above-base dependent vowel.
    VAbv,
    /// Below-base dependent vowel.
    VBlw,
    /// Pre-base dependent vowel.
    VPre,
    /// Post-base dependent vowel.
    VPst,
    /// Variation selector.
    VS,
    /// Word joiner.
    WJ,
    /// Whitespace: ends the cluster and is emitted unchanged after it.
    WS,
}

/// The script whose classifier the engine uses.
#[derive(Clone, Copy, PartialEq, Eq, Structural, Debug)]
pub enum Script {
    /// Myanmar: single-unit definitions with kinzi lookahead.
    Myanmar,
    /// Buginese: same-category runs.
    Buginese,
    /// Javanese: same-category runs.
    Javanese,
    /// Khmer: same-category runs.
    Khmer,
    /// Tibetan: single-unit definitions.
    Tibetan,
}

/// Which reordering rules a pass applies to each cluster.
#[derive(Clone, Copy, PartialEq, Eq, Structural, Debug)]
pub enum RuleSet {
    /// Move pre-base vowels to the start of the cluster.
    PreBase,
    /// Move pre-base vowels to the start, and every other dependent vowel
    /// sign in front of the nearest preceding base.
    PreBaseAndVowelSigns,
    /// Move each dependent vowel sign in front of the nearest preceding
    /// head letter; a sign with no head letter before it stays in place.
    VowelSigns,
    /// The Myanmar rules: kinzi, medial Ra, pre-base vowels and anusvara.
    Myanmar,
}

/// One definition: a category together with the span `start .. end` of the
/// input that it covers.
#[derive(Clone, Copy, PartialEq, Eq, Structural, Debug)]
pub struct Definition {
    /// The category shared by the span's units.
    pub cat: Category,
    /// First input index of the span.
    pub start: usize,
    /// One past the last input index of the span.
    pub end: usize,
}

/// The category of one code unit under the given script's classifier
/// (for Myanmar, the category without kinzi lookahead).
pub open spec fn spec_unit_category(script: Script, c: u16) -> Category {
    match script {
        Script::Myanmar => spec_myanmar_category(c, false),
        Script::Buginese => spec_buginese_category(c),
        Script::Javanese => spec_javanese_category(c),
        Script::Khmer => spec_khmer_category(c),
        Script::Tibetan => spec_tibetan_category(c),
    }
}

/// Whether the given script groups same-category runs into one definition.
pub open spec fn groups_runs(script: Script) -> bool {
    script == Script::Buginese || script == Script::Javanese || script == Script::Khmer
}

/// Whether a unit of code `c` continues a run of category `cat`: it does if
/// its own category is `cat`, or if it is a joiner.
pub open spec fn continues_run(script: Script, cat: Category, c: u16) -> bool {
    spec_unit_category(script, c) == cat || spec_unit_category(script, c) == Category::J
}

/// The first index at or after `k` that does not continue a run of
/// category `cat`, or `s.len()` if the run reaches the end.
pub open spec fn run_end(script: Script, s: Seq<u16>, cat: Category, k: int) -> int
    decreases s.len() - k,
{
    if k < 0 || k >= s.len() {
        s.len() as int
    } else if continues_run(script, cat, s[k]) {
        run_end(script, s, cat, k + 1)
    } else {
        k
    }
}

/// Whether the three code units starting at `idx` form a kinzi lookahead
/// position: the next two units are asat and virama.
pub open spec fn spec_kinzi_at(s: Seq<u16>, idx: int) -> bool {
    idx + 2 < s.len() && s[idx + 1] == 0x103A && s[idx + 2] == 0x1039
}

/// The definitions of `s` from index `idx` on, under the given script:
/// Myanmar takes one unit per definition (three for a kinzi sequence),
/// the run-grouping scripts take maximal same-category runs with joiners
/// absorbed, and Tibetan takes one unit per definition.
pub open spec fn spec_build_defs(script: Script, s: Seq<u16>, idx: int) -> Seq<Definition>
    decreases s.len() - idx,
{
    if idx < 0 || idx >= s.len() {
        Seq::empty()
    } else if script == Script::Myanmar {
        let kinzi = spec_kinzi_at(s, idx);
        let cat = spec_myanmar_category(s[idx], kinzi);
        let end = if kinzi { idx + 3 } else { idx + 1 };
        seq![Definition { cat, start: idx as usize, end: end as usize }]
            + spec_build_defs(script, s, end)
    } else if groups_runs(script) {
        let cat = spec_unit_category(script, s[idx]);
        let end = run_end(script, s, cat, idx + 1);
        proof {
            lemma_run_end_bounds(script, s, cat, idx + 1);
        }
        seq![Definition { cat, start: idx as usize, end: end as usize }]
            + spec_build_defs(script, s, end)
    } else {
        let cat = spec_unit_category(script, s[idx]);
        seq![Definition { cat, start: idx as usize, end: (idx + 1) as usize }]
            + spec_build_defs(script, s, idx + 1)
    }
}

/// `run_end` stays between `k` and the length of `s`.
pub proof fn lemma_run_end_bounds(script: Script, s: Seq<u16>, cat: Category, k: int)
    requires
        k <= s.len(),
    ensures
        k <= run_end(script, s, cat, k) <= s.len(),
    decreases s.len() - k,
{
    if 0 <= k < s.len() && continues_run(script, cat, s[k]) {
        lemma_run_end_bounds(script, s, cat, k + 1);
    }
}

/// Whether a definition ends its cluster: whitespace and non-joiners do.
pub open spec fn is_split(d: Definition) -> bool {
    d.cat == Category::WS || d.cat == Category::NJ
}

/// The first index at or after `k` of a cluster-ending definition, or
/// `defs.len()` if there is none.
pub open spec fn first_split_index(defs: Seq<Definition>, k: int) -> int
    decreases defs.len() - k,
{
    if k < 0 || k >= defs.len() {
        defs.len() as int
    } else if is_split(defs[k]) {
        k
    } else {
        first_split_index(defs, k + 1)
    }
}

/// `first_split_index` stays between `k` and the length, and the
/// definitions before it are not cluster-ending.
pub proof fn lemma_first_split_bounds(defs: Seq<Definition>, k: int)
    requires
        0 <= k <= defs.len(),
    ensures
        k <= first_split_index(defs, k) <= defs.len(),
        first_split_index(defs, k) < defs.len() ==> is_split(defs[first_split_index(defs, k)]),
        forall|j: int| k <= j < first_split_index(defs, k) ==> !is_split(defs[j]),
    decreases defs.len() - k,
{
    if k < defs.len() && !is_split(defs[k]) {
        lemma_first_split_bounds(defs, k + 1);
    }
}

/// Where the medial Ra moves: the index of the first base consonant,
/// scanning from the cluster's start, stopping at the last definition.
pub open spec fn mr_target(defs: Seq<Definition>, j: int) -> int
    decreases defs.len() - j,
{
    if j < 0 || j + 1 >= defs.len() {
        j
    } else if defs[j].cat == Category::C {
        j
    } else {
        mr_target(defs, j + 1)
    }
}

/// Where an anusvara moves: backward past all the contiguous below-base
/// vowels just before it.
pub open spec fn anusvara_target(defs: Seq<Definition>, p: int) -> int
    decreases p,
{
    if p > 0 && defs[p - 1].cat == Category::VBlw {
        anusvara_target(defs, p - 1)
    } else {
        p
    }
}

/// Where a dependent vowel sign moves: backward from `h` to the nearest
/// base consonant or generic base, or to the cluster's start.
pub open spec fn head_target(defs: Seq<Definition>, h: int) -> int
    decreases h,
{
    if h > 0 && defs[h].cat != Category::C && defs[h].cat != Category::GB {
        head_target(defs, h - 1)
    } else {
        h
    }
}

/// One reordering step at position `idx` of the cluster: the new
/// definition list and the position the pass continues from.
pub open spec fn reorder_once(rules: RuleSet, defs: Seq<Definition>, idx: int) -> (
    Seq<Definition>,
    int,
) {
    let cat = defs[idx].cat;
    if rules == RuleSet::Myanmar {
        if cat == Category::K {
            if idx + 1 < defs.len() {
                (defs.update(idx, defs[idx + 1]).update(idx + 1, defs[idx]), idx + 2)
            } else {
                (defs, idx + 1)
            }
        } else if cat == Category::MR {
            let b = mr_target(defs, 0);
            if b != idx {
                (defs.remove(idx).insert(b, defs[idx]), idx + 1)
            } else {
                (defs, idx + 1)
            }
        } else if cat == Category::VPre {
            (defs.remove(idx).insert(0, defs[idx]), idx + 1)
        } else if cat == Category::A {
            let p = anusvara_target(defs, idx);
            if p != idx {
                (defs.update(p, defs[idx]).update(idx, defs[p]), idx + 1)
            } else {
                (defs, idx + 1)
            }
        } else {
            (defs, idx + 1)
        }
    } else if rules == RuleSet::VowelSigns {
        if cat == Category::VAbv || cat == Category::VBlw || cat == Category::VPst {
            let h = head_target(defs, idx);
            if defs[h].cat == Category::C || defs[h].cat == Category::GB {
                (defs.remove(idx).insert(h, defs[idx]), idx + 1)
            } else {
                (defs, idx + 1)
            }
        } else {
            (defs, idx + 1)
        }
    } else if cat == Category::VPre {
        (defs.remove(idx).insert(0, defs[idx]), idx + 1)
    } else if rules == RuleSet::PreBaseAndVowelSigns && (cat == Category::VAbv || cat
        == Category::VBlw || cat == Category::VPst) {
        let h = head_target(defs, idx);
        (defs.remove(idx).insert(h, defs[idx]), idx + 1)
    } else {
        (defs, idx + 1)
    }
}

/// `mr_target` from 0 stays within the list.
pub proof fn lemma_mr_target_bounds(defs: Seq<Definition>, j: int)
    requires
        0 <= j < defs.len(),
    ensures
        j <= mr_target(defs, j) < defs.len(),
    decreases defs.len() - j,
{
    if j + 1 < defs.len() && defs[j].cat != Category::C {
        lemma_mr_target_bounds(defs, j + 1);
    }
}

/// `anusvara_target` stays between 0 and its start.
pub proof fn lemma_anusvara_target_bounds(defs: Seq<Definition>, p: int)
    requires
        0 <= p,
    ensures
        0 <= anusvara_target(defs, p) <= p,
    decreases p,
{
    if p > 0 && defs[p - 1].cat == Category::VBlw {
        lemma_anusvara_target_bounds(defs, p - 1);
    }
}

/// `head_target` stays between 0 and its start.
pub proof fn lemma_head_target_bounds(defs: Seq<Definition>, h: int)
    requires
        0 <= h,
    ensures
        0 <= head_target(defs, h) <= h,
    decreases h,
{
    if h > 0 && defs[h].cat != Category::C && defs[h].cat != Category::GB {
        lemma_head_target_bounds(defs, h - 1);
    }
}

/// A reordering step keeps the number of definitions and moves forward.
pub proof fn lemma_reorder_once_frame(rules: RuleSet, defs: Seq<Definition>, idx: int)
    requires
        0 <= idx < defs.len(),
    ensures
        reorder_once(rules, defs, idx).0.len() == defs.len(),
        idx < reorder_once(rules, defs, idx).1 <= idx + 2,
{
    let cat = defs[idx].cat;
    if rules == RuleSet::Myanmar {
        if cat == Category::MR {
            let b = mr_target(defs, 0);
            lemma_mr_target_bounds(defs, 0);
            if b != idx {
                assert(defs.remove(idx).insert(b, defs[idx]).len() == defs.len());
            }
        } else if cat == Category::A {
            lemma_anusvara_target_bounds(defs, idx);
        }
    } else if rules == RuleSet::VowelSigns {
        if cat == Category::VAbv || cat == Category::VBlw || cat == Category::VPst {
            lemma_head_target_bounds(defs, idx);
            let h = head_target(defs, idx);
            if defs[h].cat == Category::C || defs[h].cat == Category::GB {
                assert(defs.remove(idx).insert(h, defs[idx]).len() == defs.len());
            }
        }
    } else if cat == Category::VPre {
        assert(defs.remove(idx).insert(0, defs[idx]).len() == defs.len());
    } else if rules == RuleSet::PreBaseAndVowelSigns && (cat == Category::VAbv || cat
        == Category::VBlw || cat == Category::VPst) {
        lemma_head_target_bounds(defs, idx);
    }
}

/// The definition list of a cluster after the pass has run from position
/// `idx` to the end.
pub open spec fn spec_reorder(rules: RuleSet, defs: Seq<Definition>, idx: int) -> Seq<Definition>
    decreases defs.len() - idx,
{
    if idx < 0 || idx >= defs.len() {
        defs
    } else {
        let (d2, nxt) = reorder_once(rules, defs, idx);
        proof {
            lemma_reorder_once_frame(rules, defs, idx);
        }
        spec_reorder(rules, d2, nxt)
    }
}

/// The code units covered by one definition.
pub open spec fn span_of(s: Seq<u16>, d: Definition) -> Seq<u16> {
    s.subrange(d.start as int, d.end as int)
}

/// The concatenation of the code units of all the definitions, in order.
pub open spec fn emit_defs(s: Seq<u16>, defs: Seq<Definition>) -> Seq<u16>
    decreases defs.len(),
{
    if defs.len() == 0 {
        Seq::empty()
    } else {
        span_of(s, defs[0]) + emit_defs(s, defs.drop_first())
    }
}

/// The shaped output for the definitions from index `k` on: each cluster
/// (the definitions up to the next whitespace or non-joiner) is reordered
/// and written out, then the boundary definition's own units follow
/// unchanged.
pub open spec fn spec_shape_defs_from(
    s: Seq<u16>,
    defs: Seq<Definition>,
    rules: RuleSet,
    k: int,
) -> Seq<u16>
    decreases defs.len() - k,
{
    if k < 0 {
        Seq::empty()
    } else {
        let w = first_split_index(defs, k);
        proof {
            lemma_first_split_bounds(defs, if k <= defs.len() {
                k
            } else {
                defs.len() as int
            });
        }
        if w >= defs.len() {
            emit_defs(s, spec_reorder(rules, defs.subrange(k, defs.len() as int), 0))
        } else {
            emit_defs(s, spec_reorder(rules, defs.subrange(k, w), 0)) + span_of(s, defs[w])
                + spec_shape_defs_from(s, defs, rules, w + 1)
        }
    }
}

/// The whole pass: classify and group `s` into definitions, then shape
/// each cluster.
pub open spec fn spec_shape_clusters(s: Seq<u16>, script: Script, rules: RuleSet) -> Seq<u16> {
    spec_shape_defs_from(s, spec_build_defs(script, s, 0), rules, 0)
}

/// All the definitions' spans lie inside a buffer of length `n`.
pub open spec fn defs_wf(defs: Seq<Definition>, n: int) -> bool {
    forall|k: int| 0 <= k < defs.len() ==> ((#[trigger] defs[k]).start <= defs[k].end <= n)
}

/// Classify one code unit under the given script (for Myanmar, without
/// kinzi lookahead).
fn unit_category(script: Script, c: u16) -> (r: Category)
    ensures
        r == spec_unit_category(script, c),
{
    match script {
        Script::Myanmar => crate::myanmar::myanmar_category(c, false),
        Script::Buginese => crate::buginese::buginese_category(c),
        Script::Javanese => crate::javanese::javanese_category(c),
        Script::Khmer => crate::khmer::khmer_category(c),
        Script::Tibetan => crate::tibetan::tibetan_category(c),
    }
}

/// Whether `c` continues a run of category `cat`.
fn continues(script: Script, cat: Category, c: u16) -> (r: bool)
    ensures
        r == continues_run(script, cat, c),
{
    let t = unit_category(script, c);
    t == cat || t == Category::J
}

/// Group the input into definitions under the given script's classifier.
fn build_definitions(input: &Vec<u16>, script: Script) -> (defs: Vec<Definition>)
    ensures
        defs@ == spec_build_defs(script, input@, 0),
        defs_wf(defs@, input@.len() as int),
{
    let ghost s = input@;
    let mut defs: Vec<Definition> = Vec::new();
    let mut idx: usize = 0;
    while idx < input.len()
        invariant
            s == input@,
            idx <= s.len(),
            defs@ + spec_build_defs(script, s, idx as int) == spec_build_defs(script, s, 0),
            defs_wf(defs@, s.len() as int),
        decreases s.len() - idx,
    {
        let ghost defs0 = defs@;
        let ghost idx0 = idx as int;
        match script {
            Script::Myanmar => {
                let kinzi = input.len() >= 3 && idx < input.len() - 2 && input[idx + 1] == 0x103A
                    && input[idx + 2] == 0x1039;
                assert(kinzi == spec_kinzi_at(s, idx0));
                let cat = crate::myanmar::myanmar_category(input[idx], kinzi);
                let end = if kinzi {
                    idx + 3
                } else {
                    idx + 1
                };
                let d = Definition { cat, start: idx, end };
                defs.push(d);
                proof {
                    assert(spec_build_defs(script, s, idx0) == seq![d] + spec_build_defs(
                        script,
                        s,
                        end as int,
                    ));
                    assert(defs0 + (seq![d] + spec_build_defs(script, s, end as int)) == (defs0
                        + seq![d]) + spec_build_defs(script, s, end as int));
                }
                idx = end;
            },
            Script::Tibetan => {
                let cat = crate::tibetan::tibetan_category(input[idx]);
                let d = Definition { cat, start: idx, end: idx + 1 };
                defs.push(d);
                proof {
                    assert(spec_build_defs(script, s, idx0) == seq![d] + spec_build_defs(
                        script,
                        s,
                        idx0 + 1,
                    ));
                    assert(defs0 + (seq![d] + spec_build_defs(script, s, idx0 + 1)) == (defs0
                        + seq![d]) + spec_build_defs(script, s, idx0 + 1));
                }
                idx = idx + 1;
            },
            _ => {
                let cat = unit_category(script, input[idx]);
                let mut end = idx + 1;
                while end < input.len() && continues(script, cat, input[end])
                    invariant
                        s == input@,
                        idx < end <= s.len(),
                        run_end(script, s, cat, idx0 + 1) == run_end(script, s, cat, end as int),
                    decreases s.len() - end,
                {
                    assert(run_end(script, s, cat, end as int) == run_end(
                        script,
                        s,
                        cat,
                        end + 1 as int,
                    ));
                    end = end + 1;
                }
                assert(run_end(script, s, cat, end as int) == end as int);
                let d = Definition { cat, start: idx, end };
                defs.push(d);
                proof {
                    assert(spec_build_defs(script, s, idx0) == seq![d] + spec_build_defs(
                        script,
                        s,
                        end as int,
                    ));
                    assert(defs0 + (seq![d] + spec_build_defs(script, s, end as int)) == (defs0
                        + seq![d]) + spec_build_defs(script, s, end as int));
                }
                idx = end;
            },
        }
    }
    proof {
        assert(defs@ + spec_build_defs(script, s, idx as int) =~= defs@);
    }
    defs
}

/// Removing a definition and reinserting it elsewhere keeps every span
/// inside the buffer.
proof fn lemma_wf_move(defs: Seq<Definition>, n: int, i: int, b: int)
    requires
        defs_wf(defs, n),
        0 <= i < defs.len(),
        0 <= b <= defs.len() - 1,
    ensures
        defs_wf(defs.remove(i).insert(b, defs[i]), n),
{
    let r = defs.remove(i);
    assert forall|k: int| 0 <= k < r.len() implies #[trigger] r[k].start <= r[k].end <= n by {
        if k < i {
            assert(r[k] == defs[k]);
        } else {
            assert(r[k] == defs[k + 1]);
        }
    }
    let t = r.insert(b, defs[i]);
    assert forall|k: int| 0 <= k < t.len() implies #[trigger] t[k].start <= t[k].end <= n by {
        if k < b {
            assert(t[k] == r[k]);
        } else if k == b {
            assert(t[k] == defs[i]);
            assert(defs[i].start <= defs[i].end <= n);
        } else {
            assert(t[k] == r[k - 1]);
        }
    }
}

/// Exchanging two definitions keeps every span inside the buffer.
proof fn lemma_wf_swap(defs: Seq<Definition>, n: int, i: int, j: int)
    requires
        defs_wf(defs, n),
        0 <= i < defs.len(),
        0 <= j < defs.len(),
    ensures
        defs_wf(defs.update(i, defs[j]).update(j, defs[i]), n),
{
    let t = defs.update(i, defs[j]).update(j, defs[i]);
    assert forall|k: int| 0 <= k < t.len() implies #[trigger] t[k].start <= t[k].end <= n by {
        if k == j {
            assert(t[k] == defs[i]);
            assert(defs[i].start <= defs[i].end <= n);
        } else if k == i {
            assert(t[k] == defs[j]);
            assert(defs[j].start <= defs[j].end <= n);
        } else {
            assert(t[k] == defs[k]);
        }
    }
}

/// Apply the rule set to the definitions of one cluster, in place.
fn reorder_cluster(defs: &mut Vec<Definition>, rules: RuleSet, Ghost(n): Ghost<int>)
    requires
        defs_wf(old(defs)@, n),
    ensures
        final(defs)@ == spec_reorder(rules, old(defs)@, 0),
        final(defs)@.len() == old(defs)@.len(),
        defs_wf(final(defs)@, n),
{
    let ghost orig = defs@;
    let mut idx: usize = 0;
    while idx < defs.len()
        invariant
            defs@.len() == orig.len(),
            idx <= defs@.len(),
            defs_wf(defs@, n),
            spec_reorder(rules, orig, 0) == spec_reorder(rules, defs@, idx as int),
        decreases defs@.len() - idx,
    {
        let ghost dv = defs@;
        let ghost idx0 = idx as int;
        let cat = defs[idx].cat;
        let is_vowel_sign = cat == Category::VAbv || cat == Category::VBlw || cat
            == Category::VPst;
        if rules == RuleSet::Myanmar {
            if cat == Category::K {
                if idx + 1 < defs.len() {
                    let a = defs[idx];
                    let b = defs[idx + 1];
                    defs.set(idx, b);
                    defs.set(idx + 1, a);
                    proof {
                        lemma_wf_swap(dv, n, idx0, idx0 + 1);
                        assert(reorder_once(rules, dv, idx0) == (defs@, idx0 + 2));
                    }
                    idx = idx + 2;
                } else {
                    proof {
                        assert(reorder_once(rules, dv, idx0) == (defs@, idx0 + 1));
                    }
                    idx = idx + 1;
                }
            } else if cat == Category::MR {
                let dlen = defs.len();
                let mut b: usize = 0;
                while b + 1 < dlen && defs[b].cat != Category::C
                    invariant
                        dv == defs@,
                        dlen == defs@.len(),
                        b < defs@.len(),
                        mr_target(dv, 0) == mr_target(dv, b as int),
                    decreases defs@.len() - b,
                {
                    assert(mr_target(dv, b as int) == mr_target(dv, b + 1 as int));
                    b = b + 1;
                }
                assert(mr_target(dv, 0) == b as int);
                if b != idx {
                    let d = defs.remove(idx);
                    defs.insert(b, d);
                    proof {
                        lemma_wf_move(dv, n, idx0, b as int);
                    }
                }
                proof {
                    assert(reorder_once(rules, dv, idx0) == (defs@, idx0 + 1));
                }
                idx = idx + 1;
            } else if cat == Category::VPre {
                let d = defs.remove(idx);
                defs.insert(0, d);
                proof {
                    lemma_wf_move(dv, n, idx0, 0);
                    assert(reorder_once(rules, dv, idx0) == (defs@, idx0 + 1));
                }
                idx = idx + 1;
            } else if cat == Category::A {
                let mut p: usize = idx;
                while p > 0 && defs[p - 1].cat == Category::VBlw
                    invariant
                        dv == defs@,
                        p <= idx < defs@.len(),
                        idx == idx0,
                        anusvara_target(dv, idx0) == anusvara_target(dv, p as int),
                    decreases p,
                {
                    assert(anusvara_target(dv, p as int) == anusvara_target(dv, p - 1 as int));
                    p = p - 1;
                }
                assert(anusvara_target(dv, idx0) == p as int);
                if p != idx {
                    let a = defs[p];
                    let b = defs[idx];
                    defs.set(p, b);
                    defs.set(idx, a);
                    proof {
                        lemma_wf_swap(dv, n, p as int, idx0);
                    }
                }
                proof {
                    assert(reorder_once(rules, dv, idx0) == (defs@, idx0 + 1));
                }
                idx = idx + 1;
            } else {
                proof {
                    assert(reorder_once(rules, dv, idx0) == (defs@, idx0 + 1));
                }
                idx = idx + 1;
            }
        } else if rules == RuleSet::VowelSigns {
            if is_vowel_sign {
                let mut h: usize = idx;
                while h > 0 && defs[h].cat != Category::C && defs[h].cat != Category::GB
                    invariant
                        dv == defs@,
                        h <= idx < defs@.len(),
                        idx == idx0,
                        head_target(dv, idx0) == head_target(dv, h as int),
                    decreases h,
                {
                    assert(head_target(dv, h as int) == head_target(dv, h - 1 as int));
                    h = h - 1;
                }
                assert(head_target(dv, idx0) == h as int);
                if defs[h].cat == Category::C || defs[h].cat == Category::GB {
                    let d = defs.remove(idx);
                    defs.insert(h, d);
                    proof {
                        lemma_wf_move(dv, n, idx0, h as int);
                    }
                }
                proof {
                    assert(reorder_once(rules, dv, idx0) == (defs@, idx0 + 1));
                }
                idx = idx + 1;
            } else {
                proof {
                    assert(reorder_once(rules, dv, idx0) == (defs@, idx0 + 1));
                }
                idx = idx + 1;
            }
        } else if cat == Category::VPre {
            let d = defs.remove(idx);
            defs.insert(0, d);
            proof {
                lemma_wf_move(dv, n, idx0, 0);
                assert(reorder_once(rules, dv, idx0) == (defs@, idx0 + 1));
            }
            idx = idx + 1;
        } else if rules == RuleSet::PreBaseAndVowelSigns && is_vowel_sign {
            let mut h: usize = idx;
            while h > 0 && defs[h].cat != Category::C && defs[h].cat != Category::GB
                invariant
                    dv == defs@,
                    h <= idx < defs@.len(),
                    idx == idx0,
                    head_target(dv, idx0) == head_target(dv, h as int),
                decreases h,
            {
                assert(head_target(dv, h as int) == head_target(dv, h - 1 as int));
                h = h - 1;
            }
            assert(head_target(dv, idx0) == h as int);
            let d = defs.remove(idx);
            defs.insert(h, d);
            proof {
                lemma_wf_move(dv, n, idx0, h as int);
                assert(reorder_once(rules, dv, idx0) == (defs@, idx0 + 1));
            }
            idx = idx + 1;
        } else {
            proof {
                assert(reorder_once(rules, dv, idx0) == (defs@, idx0 + 1));
            }
            idx = idx + 1;
        }
    }
}

/// Append the code units of every definition, in order, to `res`.
fn emit_cluster(res: &mut Vec<u16>, input: &Vec<u16>, cluster: &Vec<Definition>)
    requires
        defs_wf(cluster@, input@.len() as int),
    ensures
        final(res)@ == old(res)@ + emit_defs(input@, cluster@),
{
    let ghost r0 = res@;
    let mut j: usize = 0;
    while j < cluster.len()
        invariant
            defs_wf(cluster@, input@.len() as int),
            j <= cluster@.len(),
            res@ == r0 + emit_defs(input@, cluster@.take(j as int)),
        decreases cluster@.len() - j,
    {
        let d = cluster[j];
        let mut k: usize = d.start;
        while k < d.end
            invariant
                d == cluster@[j as int],
                j < cluster@.len(),
                defs_wf(cluster@, input@.len() as int),
                d.start <= k <= d.end <= input@.len(),
                res@ == r0 + emit_defs(input@, cluster@.take(j as int)) + input@.subrange(
                    d.start as int,
                    k as int,
                ),
            decreases d.end - k,
        {
            res.push(input[k]);
            proof {
                assert(input@.subrange(d.start as int, k + 1 as int) == input@.subrange(
                    d.start as int,
                    k as int,
                ).push(input@[k as int]));
            }
            k = k + 1;
        }
        proof {
            lemma_emit_append(input@, cluster@.take(j as int), seq![d]);
            assert(cluster@.take(j + 1 as int) =~= cluster@.take(j as int) + seq![d]);
            lemma_emit_singleton(input@, d);
            assert(res@ =~= r0 + emit_defs(input@, cluster@.take(j + 1 as int)));
        }
        j = j + 1;
    }
    proof {
        assert(cluster@.take(cluster@.len() as int) =~= cluster@);
    }
}

/// Concatenation splits over the definition list.
pub proof fn lemma_emit_append(s: Seq<u16>, a: Seq<Definition>, b: Seq<Definition>)
    ensures
        emit_defs(s, a + b) == emit_defs(s, a) + emit_defs(s, b),
    decreases a.len(),
{
    if a.len() == 0 {
        assert(a + b =~= b);
        assert(emit_defs(s, a) + emit_defs(s, b) =~= emit_defs(s, b));
    } else {
        lemma_emit_append(s, a.drop_first(), b);
        assert((a + b).drop_first() =~= a.drop_first() + b);
        assert(emit_defs(s, a + b) =~= emit_defs(s, a) + emit_defs(s, b));
    }
}

/// One definition emits exactly its span.
pub proof fn lemma_emit_singleton(s: Seq<u16>, d: Definition)
    ensures
        emit_defs(s, seq![d]) == span_of(s, d),
{
    let sd = seq![d];
    assert(sd.drop_first() =~= Seq::<Definition>::empty());
    assert(emit_defs(s, sd.drop_first()) == Seq::<u16>::empty());
    assert(emit_defs(s, sd) =~= span_of(s, d));
}

/// Run one reordering pass over the buffer: group it into definitions,
/// split them into clusters, apply the rule set to each cluster, and
/// write the result back.
pub(crate) fn shape_with_rules(input: &mut Vec<u16>, script: Script, rules: RuleSet)
    ensures
        final(input)@ == spec_shape_clusters(old(input)@, script, rules),
{
    let ghost s = old(input)@;
    let defs = build_definitions(input, script);
    let mut res: Vec<u16> = Vec::new();
    let mut seg: usize = 0;
    let mut i: usize = 0;
    while i < defs.len()
        invariant
            s == input@,
            defs@ == spec_build_defs(script, s, 0),
            defs_wf(defs@, s.len() as int),
            seg <= i <= defs@.len(),
            forall|j: int| seg <= j < i ==> !is_split(defs@[j]),
            spec_shape_defs_from(s, defs@, rules, 0) == res@ + spec_shape_defs_from(
                s,
                defs@,
                rules,
                seg as int,
            ),
        decreases defs@.len() - i,
    {
        let d = defs[i];
        let ghost seg0 = seg as int;
        let ghost i0 = i as int;
        let ghost res0 = res@;
        if d.cat == Category::WS || d.cat == Category::NJ {
            // the cluster body defs[seg .. i], then the boundary unit(s)
            proof {
                lemma_first_split_eq(defs@, seg as int, i as int);
            }
            let mut cluster: Vec<Definition> = Vec::new();
            let mut j: usize = seg;
            while j < i
                invariant
                    seg <= j <= i <= defs@.len(),
                    defs@ == spec_build_defs(script, s, 0),
                    cluster@ == defs@.subrange(seg as int, j as int),
                decreases i - j,
            {
                cluster.push(defs[j]);
                proof {
                    assert(defs@.subrange(seg as int, j + 1 as int) =~= defs@.subrange(
                        seg as int,
                        j as int,
                    ).push(defs@[j as int]));
                }
                j = j + 1;
            }
            proof {
                assert(defs_wf(cluster@, s.len() as int));
            }
            reorder_cluster(&mut cluster, rules, Ghost(s.len() as int));
            emit_cluster(&mut res, input, &cluster);
            // the boundary definition's own units
            let mut k: usize = d.start;
            let ghost rmid = res@;
            while k < d.end
                invariant
                    s == input@,
                    d.start <= k <= d.end <= s.len(),
                    res@ == rmid + s.subrange(d.start as int, k as int),
                decreases d.end - k,
            {
                res.push(input[k]);
                proof {
                    assert(s.subrange(d.start as int, k + 1 as int) == s.subrange(
                        d.start as int,
                        k as int,
                    ).push(s[k as int]));
                }
                k = k + 1;
            }
            proof {
                assert(res@ =~= rmid + span_of(s, d));
                assert(spec_shape_defs_from(s, defs@, rules, seg0) == emit_defs(
                    s,
                    spec_reorder(rules, defs@.subrange(seg0, i0), 0),
                ) + span_of(s, defs@[i0]) + spec_shape_defs_from(s, defs@, rules, i0 + 1));
                assert(res@ =~= res0 + (emit_defs(s, spec_reorder(rules, defs@.subrange(seg0, i0), 0))
                    + span_of(s, defs@[i0])));
                assert(res0 + (emit_defs(s, spec_reorder(rules, defs@.subrange(seg0, i0), 0))
                    + span_of(s, defs@[i0])) + spec_shape_defs_from(s, defs@, rules, i0 + 1) =~= res0
                    + spec_shape_defs_from(s, defs@, rules, seg0));
            }
            seg = i + 1;
        }
        i = i + 1;
    }
    // the final cluster, with no boundary definition after it
    proof {
        lemma_first_split_eq(defs@, seg as int, defs@.len() as int);
    }
    let mut cluster: Vec<Definition> = Vec::new();
    let mut j: usize = seg;
    while j < defs.len()
        invariant
            seg <= j <= defs@.len(),
            defs@ == spec_build_defs(script, s, 0),
            cluster@ == defs@.subrange(seg as int, j as int),
        decreases defs@.len() - j,
    {
        cluster.push(defs[j]);
        proof {
            assert(defs@.subrange(seg as int, j + 1 as int) =~= defs@.subrange(
                seg as int,
                j as int,
            ).push(defs@[j as int]));
        }
        j = j + 1;
    }
    proof {
        assert(defs_wf(cluster@, s.len() as int));
    }
    reorder_cluster(&mut cluster, rules, Ghost(s.len() as int));
    emit_cluster(&mut res, input, &cluster);
    proof {
        assert(spec_shape_defs_from(s, defs@, rules, seg as int) == emit_defs(
            s,
            spec_reorder(rules, defs@.subrange(seg as int, defs@.len() as int), 0),
        ));
        assert(res@ =~= spec_shape_defs_from(s, defs@, rules, 0));
    }
    *input = res;
}

/// A vector's length fits the machine's word.
pub proof fn lemma_vec_len_bound(v: &Vec<u16>)
    ensures
        v@.len() <= usize::MAX,
{
    broadcast use vstd::std_specs::vec::axiom_spec_len;

    assert(vstd::std_specs::vec::spec_vec_len(v) == v@.len());
}

/// The sum of the lengths of the definitions' spans.
pub open spec fn span_sum(defs: Seq<Definition>) -> int
    decreases defs.len(),
{
    if defs.len() == 0 {
        0
    } else {
        defs[0].end - defs[0].start + span_sum(defs.drop_first())
    }
}

/// The span sum splits over concatenation.
pub proof fn lemma_span_sum_append(a: Seq<Definition>, b: Seq<Definition>)
    ensures
        span_sum(a + b) == span_sum(a) + span_sum(b),
    decreases a.len(),
{
    if a.len() == 0 {
        assert(a + b =~= b);
    } else {
        lemma_span_sum_append(a.drop_first(), b);
        assert((a + b).drop_first() =~= a.drop_first() + b);
    }
}

/// The emitted code units of a well-formed definition list are as many as
/// the spans say.
pub proof fn lemma_emit_len(s: Seq<u16>, defs: Seq<Definition>)
    requires
        defs_wf(defs, s.len() as int),
    ensures
        emit_defs(s, defs).len() == span_sum(defs),
    decreases defs.len(),
{
    if defs.len() > 0 {
        assert(defs[0].start <= defs[0].end <= s.len());
        assert forall|k: int| 0 <= k < defs.drop_first().len() implies #[trigger] defs.drop_first()[k].start
            <= defs.drop_first()[k].end <= s.len() by {
            assert(defs.drop_first()[k] == defs[k + 1]);
        }
        lemma_emit_len(s, defs.drop_first());
    }
}

/// Moving one definition keeps the span sum.
proof fn lemma_span_sum_move(defs: Seq<Definition>, i: int, b: int)
    requires
        0 <= i < defs.len(),
        0 <= b <= defs.len() - 1,
    ensures
        span_sum(defs.remove(i).insert(b, defs[i])) == span_sum(defs),
{
    let d = defs[i];
    assert(defs =~= defs.take(i) + seq![d] + defs.skip(i + 1));
    lemma_span_sum_append(defs.take(i) + seq![d], defs.skip(i + 1));
    lemma_span_sum_append(defs.take(i), seq![d]);
    assert(span_sum(seq![d]) == d.end - d.start + span_sum(seq![d].drop_first()));
    assert(seq![d].drop_first() =~= Seq::<Definition>::empty());
    let r = defs.remove(i);
    assert(r =~= defs.take(i) + defs.skip(i + 1));
    lemma_span_sum_append(defs.take(i), defs.skip(i + 1));
    let t = r.insert(b, d);
    assert(t =~= r.take(b) + seq![d] + r.skip(b));
    lemma_span_sum_append(r.take(b) + seq![d], r.skip(b));
    lemma_span_sum_append(r.take(b), seq![d]);
    assert(r =~= r.take(b) + r.skip(b));
    lemma_span_sum_append(r.take(b), r.skip(b));
}

/// Exchanging two definitions keeps the span sum.
proof fn lemma_span_sum_swap(defs: Seq<Definition>, i: int, j: int)
    requires
        0 <= i < j < defs.len(),
    ensures
        span_sum(defs.update(i, defs[j]).update(j, defs[i])) == span_sum(defs),
{
    let t = defs.update(i, defs[j]).update(j, defs[i]);
    assert(defs =~= defs.take(i) + seq![defs[i]] + defs.subrange(i + 1, j) + seq![defs[j]]
        + defs.skip(j + 1));
    assert(t =~= defs.take(i) + seq![defs[j]] + defs.subrange(i + 1, j) + seq![defs[i]]
        + defs.skip(j + 1));
    lemma_span_sum_parts(
        defs.take(i),
        seq![defs[i]],
        defs.subrange(i + 1, j),
        seq![defs[j]],
        defs.skip(j + 1),
    );
    lemma_span_sum_parts(
        defs.take(i),
        seq![defs[j]],
        defs.subrange(i + 1, j),
        seq![defs[i]],
        defs.skip(j + 1),
    );
}

/// The span sum of a five-way concatenation is the sum of the parts.
proof fn lemma_span_sum_parts(
    a: Seq<Definition>,
    b: Seq<Definition>,
    c: Seq<Definition>,
    d: Seq<Definition>,
    e: Seq<Definition>,
)
    ensures
        span_sum(a + b + c + d + e) == span_sum(a) + span_sum(b) + span_sum(c) + span_sum(d)
            + span_sum(e),
{
    lemma_span_sum_append(a + b + c + d, e);
    lemma_span_sum_append(a + b + c, d);
    lemma_span_sum_append(a + b, c);
    lemma_span_sum_append(a, b);
}

/// One reordering step keeps the span sum.
proof fn lemma_reorder_once_sum(rules: RuleSet, defs: Seq<Definition>, idx: int)
    requires
        0 <= idx < defs.len(),
    ensures
        span_sum(reorder_once(rules, defs, idx).0) == span_sum(defs),
{
    let cat = defs[idx].cat;
    if rules == RuleSet::Myanmar {
        if cat == Category::K {
            if idx + 1 < defs.len() {
                lemma_span_sum_swap(defs, idx, idx + 1);
            }
        } else if cat == Category::MR {
            let b = mr_target(defs, 0);
            lemma_mr_target_bounds(defs, 0);
            if b != idx {
                lemma_span_sum_move(defs, idx, b);
            }
        } else if cat == Category::VPre {
            lemma_span_sum_move(defs, idx, 0);
        } else if cat == Category::A {
            let p = anusvara_target(defs, idx);
            lemma_anusvara_target_bounds(defs, idx);
            if p != idx {
                lemma_span_sum_swap(defs, p, idx);
            }
        }
    } else if rules == RuleSet::VowelSigns {
        if cat == Category::VAbv || cat == Category::VBlw || cat == Category::VPst {
            let h = head_target(defs, idx);
            lemma_head_target_bounds(defs, idx);
            if defs[h].cat == Category::C || defs[h].cat == Category::GB {
                lemma_span_sum_move(defs, idx, h);
            }
        }
    } else if cat == Category::VPre {
        lemma_span_sum_move(defs, idx, 0);
    } else if rules == RuleSet::PreBaseAndVowelSigns && (cat == Category::VAbv || cat
        == Category::VBlw || cat == Category::VPst) {
        let h = head_target(defs, idx);
        lemma_head_target_bounds(defs, idx);
        lemma_span_sum_move(defs, idx, h);
    }
}

/// One reordering step keeps the spans inside the buffer.
proof fn lemma_reorder_once_wf(rules: RuleSet, defs: Seq<Definition>, idx: int, n: int)
    requires
        0 <= idx < defs.len(),
        defs_wf(defs, n),
    ensures
        defs_wf(reorder_once(rules, defs, idx).0, n),
{
    let cat = defs[idx].cat;
    if rules == RuleSet::Myanmar {
        if cat == Category::K {
            if idx + 1 < defs.len() {
                lemma_wf_swap(defs, n, idx, idx + 1);
            }
        } else if cat == Category::MR {
            let b = mr_target(defs, 0);
            lemma_mr_target_bounds(defs, 0);
            if b != idx {
                lemma_wf_move(defs, n, idx, b);
            }
        } else if cat == Category::VPre {
            lemma_wf_move(defs, n, idx, 0);
        } else if cat == Category::A {
            let p = anusvara_target(defs, idx);
            lemma_anusvara_target_bounds(defs, idx);
            if p != idx {
                lemma_wf_swap(defs, n, p, idx);
            }
        }
    } else if rules == RuleSet::VowelSigns {
        if cat == Category::VAbv || cat == Category::VBlw || cat == Category::VPst {
            let h = head_target(defs, idx);
            lemma_head_target_bounds(defs, idx);
            if defs[h].cat == Category::C || defs[h].cat == Category::GB {
                lemma_wf_move(defs, n, idx, h);
            }
        }
    } else if cat == Category::VPre {
        lemma_wf_move(defs, n, idx, 0);
    } else if rules == RuleSet::PreBaseAndVowelSigns && (cat == Category::VAbv || cat
        == Category::VBlw || cat == Category::VPst) {
        let h = head_target(defs, idx);
        lemma_head_target_bounds(defs, idx);
        lemma_wf_move(defs, n, idx, h);
    }
}

/// Reordering a cluster keeps the span sum and the spans' bounds.
pub proof fn lemma_reorder_sum(rules: RuleSet, defs: Seq<Definition>, idx: int, n: int)
    requires
        defs_wf(defs, n),
    ensures
        span_sum(spec_reorder(rules, defs, idx)) == span_sum(defs),
        defs_wf(spec_reorder(rules, defs, idx), n),
        spec_reorder(rules, defs, idx).len() == defs.len(),
    decreases defs.len() - idx,
{
    if 0 <= idx < defs.len() {
        let (d2, nxt) = reorder_once(rules, defs, idx);
        lemma_reorder_once_frame(rules, defs, idx);
        lemma_reorder_once_sum(rules, defs, idx);
        lemma_reorder_once_wf(rules, defs, idx, n);
        lemma_reorder_sum(rules, d2, nxt, n);
    }
}

/// The definitions built from a buffer have their spans inside it.
pub proof fn lemma_build_defs_wf(script: Script, s: Seq<u16>, idx: int)
    requires
        s.len() <= usize::MAX,
    ensures
        defs_wf(spec_build_defs(script, s, idx), s.len() as int),
    decreases s.len() - idx,
{
    if 0 <= idx < s.len() {
        let defs = spec_build_defs(script, s, idx);
        let end: int = if script == Script::Myanmar {
            if spec_kinzi_at(s, idx) {
                idx + 3
            } else {
                idx + 1
            }
        } else if groups_runs(script) {
            let cat = spec_unit_category(script, s[idx]);
            lemma_run_end_bounds(script, s, cat, idx + 1);
            run_end(script, s, cat, idx + 1)
        } else {
            idx + 1
        };
        lemma_build_defs_wf(script, s, end);
        let rest = spec_build_defs(script, s, end);
        assert(idx <= end <= s.len());
        assert forall|k: int| 0 <= k < defs.len() implies ((#[trigger] defs[k]).start <= defs[k].end
            <= s.len()) by {
            if k > 0 {
                assert(defs[k] == rest[k - 1]);
                assert(rest[k - 1].start <= rest[k - 1].end <= s.len());
            } else {
                assert(defs[0].start == idx && defs[0].end == end);
            }
        }
    }
}

/// Concatenating the definitions' spans, in their original order,
/// reproduces the classified buffer exactly: the partition into
/// definitions is length-preserving and lossless.
pub proof fn lemma_definitions_reconstruct(script: Script, s: Seq<u16>, idx: int)
    requires
        0 <= idx <= s.len(),
        s.len() <= usize::MAX,
    ensures
        emit_defs(s, spec_build_defs(script, s, idx)) == s.subrange(idx, s.len() as int),
    decreases s.len() - idx,
{
    let defs = spec_build_defs(script, s, idx);
    if idx >= s.len() {
        assert(defs =~= Seq::<Definition>::empty());
        assert(emit_defs(s, defs) =~= s.subrange(idx, s.len() as int));
    } else {
        let end: int = if script == Script::Myanmar {
            if spec_kinzi_at(s, idx) {
                idx + 3
            } else {
                idx + 1
            }
        } else if groups_runs(script) {
            let cat = spec_unit_category(script, s[idx]);
            lemma_run_end_bounds(script, s, cat, idx + 1);
            run_end(script, s, cat, idx + 1)
        } else {
            idx + 1
        };
        let d = defs[0];
        assert(idx <= end <= s.len());
        assert(d.start == idx && d.end == end);
        lemma_definitions_reconstruct(script, s, end);
        assert(defs.drop_first() =~= spec_build_defs(script, s, end));
        assert(emit_defs(s, defs) == span_of(s, d) + emit_defs(s, defs.drop_first()));
        assert(span_of(s, d) + s.subrange(end, s.len() as int) =~= s.subrange(
            idx,
            s.len() as int,
        ));
    }
}

/// The span sum of the definitions of a whole buffer is its length.
pub proof fn lemma_build_defs_sum(script: Script, s: Seq<u16>)
    requires
        s.len() <= usize::MAX,
    ensures
        span_sum(spec_build_defs(script, s, 0)) == s.len(),
{
    lemma_build_defs_wf(script, s, 0);
    lemma_definitions_reconstruct(script, s, 0);
    lemma_emit_len(s, spec_build_defs(script, s, 0));
    assert(s.subrange(0, s.len() as int) =~= s);
}

/// Splitting a definition list keeps the spans' bounds on both sides.
proof fn lemma_wf_subrange(defs: Seq<Definition>, n: int, lo: int, hi: int)
    requires
        defs_wf(defs, n),
        0 <= lo <= hi <= defs.len(),
    ensures
        defs_wf(defs.subrange(lo, hi), n),
{
    assert forall|k: int| 0 <= k < defs.subrange(lo, hi).len()
        implies #[trigger] defs.subrange(lo, hi)[k].start <= defs.subrange(lo, hi)[k].end <= n by {
        assert(defs.subrange(lo, hi)[k] == defs[lo + k]);
        assert(defs[lo + k].start <= defs[lo + k].end <= n);
    }
}

/// Shaping the clusters of a definition list emits exactly as many code
/// units as the definitions' spans hold.
proof fn lemma_shape_defs_len(s: Seq<u16>, defs: Seq<Definition>, rules: RuleSet, k: int)
    requires
        defs_wf(defs, s.len() as int),
        0 <= k <= defs.len(),
    ensures
        spec_shape_defs_from(s, defs, rules, k).len() == span_sum(
            defs.subrange(k, defs.len() as int),
        ),
    decreases defs.len() - k,
{
    let w = first_split_index(defs, k);
    lemma_first_split_bounds(defs, k);
    if w >= defs.len() {
        let part = defs.subrange(k, defs.len() as int);
        lemma_wf_subrange(defs, s.len() as int, k, defs.len() as int);
        lemma_reorder_sum(rules, part, 0, s.len() as int);
        lemma_emit_len(s, spec_reorder(rules, part, 0));
    } else {
        let part = defs.subrange(k, w);
        lemma_wf_subrange(defs, s.len() as int, k, w);
        lemma_reorder_sum(rules, part, 0, s.len() as int);
        lemma_emit_len(s, spec_reorder(rules, part, 0));
        lemma_shape_defs_len(s, defs, rules, w + 1);
        assert(defs[w].start <= defs[w].end <= s.len());
        assert(defs.subrange(k, defs.len() as int) =~= part + seq![defs[w]] + defs.subrange(
            w + 1,
            defs.len() as int,
        ));
        lemma_span_sum_append(part + seq![defs[w]], defs.subrange(w + 1, defs.len() as int));
        lemma_span_sum_append(part, seq![defs[w]]);
        assert(seq![defs[w]].drop_first() =~= Seq::<Definition>::empty());
        assert(span_sum(Seq::<Definition>::empty()) == 0);
        assert(span_sum(seq![defs[w]]) == defs[w].end - defs[w].start + span_sum(
            seq![defs[w]].drop_first(),
        ));
    }
}

/// Length preservation: a cluster-reordering pass never changes the
/// number of code units, whatever the input.
pub proof fn lemma_shape_clusters_len(s: Seq<u16>, script: Script, rules: RuleSet)
    requires
        s.len() <= usize::MAX,
    ensures
        spec_shape_clusters(s, script, rules).len() == s.len(),
{
    let defs = spec_build_defs(script, s, 0);
    lemma_build_defs_wf(script, s, 0);
    lemma_shape_defs_len(s, defs, rules, 0);
    assert(defs.subrange(0, defs.len() as int) =~= defs);
    lemma_build_defs_sum(script, s);
}

/// Whether definitions of this category move under the given rule set.
pub open spec fn category_moves(rules: RuleSet, cat: Category) -> bool {
    if rules == RuleSet::Myanmar {
        cat == Category::K || cat == Category::MR || cat == Category::VPre || cat == Category::A
    } else if rules == RuleSet::PreBaseAndVowelSigns {
        cat == Category::VPre || cat == Category::VAbv || cat == Category::VBlw || cat
            == Category::VPst
    } else if rules == RuleSet::VowelSigns {
        cat == Category::VAbv || cat == Category::VBlw || cat == Category::VPst
    } else {
        cat == Category::VPre
    }
}

/// Whether a unit can begin a definition that moves under the given
/// script and rule set (for Myanmar, under either kinzi reading).
pub open spec fn unit_moves(script: Script, rules: RuleSet, c: u16) -> bool {
    if script == Script::Myanmar {
        category_moves(rules, spec_myanmar_category(c, true)) || category_moves(
            rules,
            spec_myanmar_category(c, false),
        )
    } else {
        category_moves(rules, spec_unit_category(script, c))
    }
}

/// A pass whose cluster holds no moving definition leaves it alone.
proof fn lemma_reorder_inert(rules: RuleSet, defs: Seq<Definition>, idx: int)
    requires
        forall|k: int| 0 <= k < defs.len() ==> !category_moves(rules, (#[trigger] defs[k]).cat),
    ensures
        spec_reorder(rules, defs, idx) == defs,
    decreases defs.len() - idx,
{
    if 0 <= idx < defs.len() {
        lemma_reorder_once_frame(rules, defs, idx);
        assert(reorder_once(rules, defs, idx).0 == defs);
        lemma_reorder_inert(rules, reorder_once(rules, defs, idx).0, reorder_once(
            rules,
            defs,
            idx,
        ).1);
    }
}

/// Definitions built from units that never move do not move.
proof fn lemma_build_defs_inert(script: Script, rules: RuleSet, s: Seq<u16>, idx: int)
    requires
        forall|k: int| 0 <= k < s.len() ==> !unit_moves(script, rules, #[trigger] s[k]),
    ensures
        forall|k: int| 0 <= k < spec_build_defs(script, s, idx).len() ==> !category_moves(
            rules,
            (#[trigger] spec_build_defs(script, s, idx)[k]).cat,
        ),
    decreases s.len() - idx,
{
    if 0 <= idx < s.len() {
        let defs = spec_build_defs(script, s, idx);
        let end: int = if script == Script::Myanmar {
            if spec_kinzi_at(s, idx) {
                idx + 3
            } else {
                idx + 1
            }
        } else if groups_runs(script) {
            let cat = spec_unit_category(script, s[idx]);
            lemma_run_end_bounds(script, s, cat, idx + 1);
            run_end(script, s, cat, idx + 1)
        } else {
            idx + 1
        };
        lemma_build_defs_inert(script, rules, s, end);
        let rest = spec_build_defs(script, s, end);
        assert forall|k: int| 0 <= k < defs.len() implies !category_moves(
            rules,
            (#[trigger] defs[k]).cat,
        ) by {
            if k == 0 {
                assert(!unit_moves(script, rules, s[idx]));
            } else {
                assert(defs[k] == rest[k - 1]);
                assert(!category_moves(rules, rest[k - 1].cat));
            }
        }
    }
}

/// An inert cluster pass emits the definitions of every cluster in their
/// original order.
proof fn lemma_shape_defs_inert(s: Seq<u16>, defs: Seq<Definition>, rules: RuleSet, k: int)
    requires
        0 <= k <= defs.len(),
        forall|j: int| 0 <= j < defs.len() ==> !category_moves(rules, (#[trigger] defs[j]).cat),
    ensures
        spec_shape_defs_from(s, defs, rules, k) == emit_defs(
            s,
            defs.subrange(k, defs.len() as int),
        ),
    decreases defs.len() - k,
{
    let w = first_split_index(defs, k);
    lemma_first_split_bounds(defs, k);
    if w >= defs.len() {
        let part = defs.subrange(k, defs.len() as int);
        assert forall|j: int| 0 <= j < part.len() implies !category_moves(
            rules,
            (#[trigger] part[j]).cat,
        ) by {
            assert(part[j] == defs[k + j]);
        }
        lemma_reorder_inert(rules, part, 0);
    } else {
        let part = defs.subrange(k, w);
        assert forall|j: int| 0 <= j < part.len() implies !category_moves(
            rules,
            (#[trigger] part[j]).cat,
        ) by {
            assert(part[j] == defs[k + j]);
        }
        lemma_reorder_inert(rules, part, 0);
        lemma_shape_defs_inert(s, defs, rules, w + 1);
        lemma_emit_append(s, part, seq![defs[w]]);
        lemma_emit_append(s, part + seq![defs[w]], defs.subrange(w + 1, defs.len() as int));
        lemma_emit_singleton(s, defs[w]);
        assert(part + seq![defs[w]] + defs.subrange(w + 1, defs.len() as int) =~= defs.subrange(
            k,
            defs.len() as int,
        ));
    }
}

/// Inertness: a cluster pass over a buffer none of whose units begins a
/// moving definition returns the buffer unchanged.
pub proof fn lemma_shape_clusters_inert(s: Seq<u16>, script: Script, rules: RuleSet)
    requires
        s.len() <= usize::MAX,
        forall|k: int| 0 <= k < s.len() ==> !unit_moves(script, rules, #[trigger] s[k]),
    ensures
        spec_shape_clusters(s, script, rules) == s,
{
    let defs = spec_build_defs(script, s, 0);
    lemma_build_defs_inert(script, rules, s, 0);
    lemma_shape_defs_inert(s, defs, rules, 0);
    assert(defs.subrange(0, defs.len() as int) =~= defs);
    lemma_definitions_reconstruct(script, s, 0);
    assert(s.subrange(0, s.len() as int) =~= s);
}

/// `first_split_index` is the first boundary at or after `k`.
proof fn lemma_first_split_eq(defs: Seq<Definition>, k: int, w: int)
    requires
        0 <= k <= w <= defs.len(),
        forall|j: int| k <= j < w ==> !is_split(defs[j]),
        w == defs.len() || is_split(defs[w]),
    ensures
        first_split_index(defs, k) == w,
    decreases w - k,
{
    if k < w {
        lemma_first_split_eq(defs, k + 1, w);
    }
}

} // verus!
