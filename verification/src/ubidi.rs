//! The simplified bidirectional reordering pass: line splitting, per-unit
//! directional classification, run formation, neutral and weak resolution,
//! run merging, and right-to-left reversal with mirrored-glyph
//! substitution.

use vstd::prelude::*;
use crate::ubidi_data::MIRROR_FROM;
use crate::ubidi_data::MIRROR_TO;
use crate::ubidi_data::NEUTRAL_RANGE_HI;
use crate::ubidi_data::NEUTRAL_RANGE_LO;
use crate::ubidi_data::RTL_RANGE_HI;
use crate::ubidi_data::RTL_RANGE_LO;
use crate::ubidi_data::WEAK_RANGE_HI;
use crate::ubidi_data::WEAK_RANGE_LO;

verus! {

/// The directional class of a code unit.
#[derive(Clone, Copy, PartialEq, Eq, Structural, Debug)]
pub enum Type {
    /// Right-to-left.
    Rtl,
    /// Weak: carried along with the surrounding text's direction.
    Weak,
    /// Neutral: no inherent direction.
    Neutral,
    /// Left-to-right.
    Ltr,
}

/// Whether `c` lies in one of the right-to-left ranges.
pub open spec fn spec_is_rtl(c: u16) -> bool {
    exists|k: int| 0 <= k < 45 && RTL_RANGE_LO[k] <= c && c <= RTL_RANGE_HI[k]
}

/// Check whether a character reads right to left.
pub fn is_rtl(c: &u16) -> (r: bool)
    ensures
        r == spec_is_rtl(*c),
{
    let mut i: usize = 0;
    while i < 45
        invariant
            i <= 45,
            forall|k: int| 0 <= k < i ==> !(RTL_RANGE_LO[k] <= *c && *c <= RTL_RANGE_HI[k]),
        decreases 45 - i,
    {
        if RTL_RANGE_LO[i] <= *c && *c <= RTL_RANGE_HI[i] {
            return true;
        }
        i += 1;
    }
    false
}

/// Whether `c` lies in one of the neutral ranges.
pub open spec fn spec_is_neutral(c: u16) -> bool {
    exists|k: int| 0 <= k < 137 && NEUTRAL_RANGE_LO[k] <= c && c <= NEUTRAL_RANGE_HI[k]
}

/// Check whether a character has no inherent direction.
pub fn is_neutral(c: &u16) -> (r: bool)
    ensures
        r == spec_is_neutral(*c),
{
    let mut i: usize = 0;
    while i < 137
        invariant
            i <= 137,
            forall|k: int| 0 <= k < i ==> !(NEUTRAL_RANGE_LO[k] <= *c && *c <= NEUTRAL_RANGE_HI[k]),
        decreases 137 - i,
    {
        if NEUTRAL_RANGE_LO[i] <= *c && *c <= NEUTRAL_RANGE_HI[i] {
            return true;
        }
        i += 1;
    }
    false
}

/// Whether `c` lies in one of the weak ranges.
pub open spec fn spec_is_weak(c: u16) -> bool {
    exists|k: int| 0 <= k < 228 && WEAK_RANGE_LO[k] <= c && c <= WEAK_RANGE_HI[k]
}

/// Check whether a character is weakly directional.
pub fn is_weak(c: &u16) -> (r: bool)
    ensures
        r == spec_is_weak(*c),
{
    let mut i: usize = 0;
    while i < 228
        invariant
            i <= 228,
            forall|k: int| 0 <= k < i ==> !(WEAK_RANGE_LO[k] <= *c && *c <= WEAK_RANGE_HI[k]),
        decreases 228 - i,
    {
        if WEAK_RANGE_LO[i] <= *c && *c <= WEAK_RANGE_HI[i] {
            return true;
        }
        i += 1;
    }
    false
}

/// The directional class of one code unit: right-to-left, else neutral,
/// else weak, else left-to-right.
pub open spec fn spec_get_type(c: u16) -> Type {
    if spec_is_rtl(c) {
        Type::Rtl
    } else if spec_is_neutral(c) {
        Type::Neutral
    } else if spec_is_weak(c) {
        Type::Weak
    } else {
        Type::Ltr
    }
}

/// Classify one code unit's direction.
pub fn get_type(c: &u16) -> (r: Type)
    ensures
        r == spec_get_type(*c),
{
    if is_rtl(c) {
        return Type::Rtl;
    }
    if is_neutral(c) {
        return Type::Neutral;
    }
    if is_weak(c) {
        return Type::Weak;
    }
    Type::Ltr
}

/// The first strongly directional class at or after `k`, or left-to-right
/// if there is none.
pub open spec fn spec_dominant_from(s: Seq<u16>, k: int) -> Type
    decreases s.len() - k,
{
    if k < 0 || k >= s.len() {
        Type::Ltr
    } else if spec_get_type(s[k]) == Type::Rtl || spec_get_type(s[k]) == Type::Ltr {
        spec_get_type(s[k])
    } else {
        spec_dominant_from(s, k + 1)
    }
}

/// Find the dominant direction of the text: the class of its first
/// strongly directional unit, or left-to-right if there is none.
pub fn find_dominant_type(text: &[u16]) -> (r: Type)
    ensures
        r == spec_dominant_from(text@, 0),
{
    let mut i: usize = 0;
    while i < text.len()
        invariant
            i <= text@.len(),
            spec_dominant_from(text@, 0) == spec_dominant_from(text@, i as int),
        decreases text@.len() - i,
    {
        let t = get_type(&text[i]);
        if t == Type::Rtl || t == Type::Ltr {
            return t;
        }
        i += 1;
    }
    Type::Ltr
}

/// The mirror partner of `c` from index `k` of the mirror table on, or `c`
/// itself if no entry matches.
pub open spec fn spec_mirror_from(c: u16, k: int) -> u16
    decreases 48 - k,
{
    if k < 0 || k >= 48 {
        c
    } else if MIRROR_FROM[k] == c {
        MIRROR_TO[k]
    } else {
        spec_mirror_from(c, k + 1)
    }
}

/// The mirror partner of `c`, or `c` itself if it has none.
pub open spec fn spec_mirror_unit(c: u16) -> u16 {
    spec_mirror_from(c, 0)
}

/// Every unit replaced by its mirror partner.
pub open spec fn spec_mirror_all(s: Seq<u16>) -> Seq<u16> {
    s.map_values(|c: u16| spec_mirror_unit(c))
}

/// The mirror partner of one unit, or the unit itself.
fn mirror_unit(c: u16) -> (r: u16)
    ensures
        r == spec_mirror_unit(c),
{
    let mut j: usize = 0;
    while j < 48
        invariant
            j <= 48,
            spec_mirror_from(c, 0) == spec_mirror_from(c, j as int),
        decreases 48 - j,
    {
        if MIRROR_FROM[j] == c {
            return MIRROR_TO[j];
        }
        assert(spec_mirror_from(c, j as int) == spec_mirror_from(c, j + 1 as int));
        j += 1;
    }
    c
}

/// Replace every character that has a mirror partner (brackets and a few
/// mathematical symbols) by that partner.
pub fn mirror_adjust_string(s: &mut Vec<u16>)
    ensures
        final(s)@ == spec_mirror_all(old(s)@),
{
    let ghost s0 = s@;
    let mut i: usize = 0;
    while i < s.len()
        invariant
            i <= s@.len(),
            s@.len() == s0.len(),
            forall|k: int| 0 <= k < i ==> s@[k] == spec_mirror_unit(s0[k]),
            forall|k: int| i <= k < s0.len() ==> s@[k] == s0[k],
        decreases s@.len() - i,
    {
        let m = mirror_unit(s[i]);
        s.set(i, m);
        i += 1;
    }
    proof {
        assert(s@ =~= spec_mirror_all(s0));
    }
}

/// One line of the input: a maximal span without a hard line break.
#[derive(Clone, Copy, PartialEq, Eq, Structural, Debug)]
pub struct Line {
    /// First input index of the line.
    pub start: usize,
    /// One past the last input index of the line.
    pub end: usize,
}

/// One direction-homogeneous run of a line.
#[derive(Clone, Copy, PartialEq, Eq, Structural, Debug)]
pub struct Chunk {
    /// First line index of the run.
    pub start: usize,
    /// One past the last line index of the run.
    pub end: usize,
    /// The run's directional class.
    pub t: Type,
}

impl Chunk {
    /// Build a run from its bounds and class.
    pub fn new(start: usize, end: usize, t: Type) -> (r: Chunk)
        ensures
            r == (Chunk { start, end, t }),
    {
        Chunk { start, end, t }
    }

    /// Whether the run has the given class.
    pub fn is_type(&self, t: Type) -> (r: bool)
        ensures
            r == (self.t == t),
    {
        self.t == t
    }

    /// Give the run the given class.
    pub fn set_type(&mut self, t: Type)
        ensures
            *final(self) == (Chunk { t, ..*old(self) }),
    {
        self.t = t;
    }

    /// Give the run another run's class.
    pub fn set_chunk_type(&mut self, c: &Chunk)
        ensures
            *final(self) == (Chunk { t: c.t, ..*old(self) }),
    {
        self.t = c.t;
    }

    /// The run's first line index.
    pub fn get_start(&self) -> (r: usize)
        ensures
            r == self.start,
    {
        self.start
    }

    /// One past the run's last line index.
    pub fn get_end(&self) -> (r: usize)
        ensures
            r == self.end,
    {
        self.end
    }
}

/// The lines of `s` from index `idx` on, the current line having begun at
/// `start`: a line ends before each line feed or carriage return, and an
/// empty span before a break is absorbed rather than kept.
pub open spec fn spec_lines_from(s: Seq<u16>, idx: int, start: int) -> Seq<Line>
    decreases s.len() - idx,
{
    if idx < 0 || idx >= s.len() {
        if start < s.len() {
            seq![Line { start: start as usize, end: s.len() as usize }]
        } else {
            Seq::empty()
        }
    } else if s[idx] == 0x000A || s[idx] == 0x000D {
        if start != idx {
            seq![Line { start: start as usize, end: idx as usize }] + spec_lines_from(
                s,
                idx + 1,
                idx + 1,
            )
        } else {
            spec_lines_from(s, idx + 1, idx + 1)
        }
    } else {
        spec_lines_from(s, idx + 1, start)
    }
}

/// The lines of the whole input.
pub open spec fn spec_lines(s: Seq<u16>) -> Seq<Line> {
    spec_lines_from(s, 0, 0)
}

/// The initial runs of a line from index `idx` on: a new run starts
/// wherever the unit's class differs from the running class.
pub open spec fn spec_chunks_from(line: Seq<u16>, idx: int, start: int, cur: Type) -> Seq<Chunk>
    decreases line.len() - idx,
{
    if idx < 0 || idx >= line.len() {
        if start != line.len() {
            seq![Chunk { start: start as usize, end: line.len() as usize, t: cur }]
        } else {
            Seq::empty()
        }
    } else if spec_get_type(line[idx]) != cur {
        seq![Chunk { start: start as usize, end: idx as usize, t: cur }] + spec_chunks_from(
            line,
            idx + 1,
            idx,
            spec_get_type(line[idx]),
        )
    } else {
        spec_chunks_from(line, idx + 1, start, cur)
    }
}

/// One neutral- or weak-resolution step at run `idx`: a leading neutral
/// takes its successor's class, a trailing neutral keeps its own, an
/// interior neutral takes its neighbours' shared class or the line's
/// dominant class, and a weak run after a right-to-left run changes place
/// with it when the line is not right-to-left dominant.
pub open spec fn spec_resolve_step(ch: Seq<Chunk>, idx: int, dominant_rtl: bool) -> Seq<Chunk> {
    let n = ch.len() as int;
    let c = ch[idx];
    if c.t == Type::Neutral {
        if idx == 0 {
            if n <= 1 {
                ch
            } else {
                ch.update(0, Chunk { t: ch[1].t, ..c })
            }
        } else if idx == n - 1 {
            ch
        } else if ch[idx - 1].t == ch[idx + 1].t {
            ch.update(idx, Chunk { t: ch[idx - 1].t, ..c })
        } else {
            ch.update(
                idx,
                Chunk {
                    t: if dominant_rtl {
                        Type::Rtl
                    } else {
                        Type::Ltr
                    },
                    ..c
                },
            )
        }
    } else if c.t == Type::Weak && idx != 0 && ch[idx - 1].t == Type::Rtl && !dominant_rtl {
        ch.update(idx - 1, ch[idx]).update(idx, ch[idx - 1])
    } else {
        ch
    }
}

/// The runs after the resolution pass has walked from `idx` to the end.
pub open spec fn spec_resolve_run(ch: Seq<Chunk>, idx: int, dominant_rtl: bool) -> Seq<Chunk>
    decreases ch.len() - idx,
{
    if idx < 0 || idx >= ch.len() {
        ch
    } else {
        proof {
            lemma_resolve_step_len(ch, idx, dominant_rtl);
        }
        spec_resolve_run(spec_resolve_step(ch, idx, dominant_rtl), idx + 1, dominant_rtl)
    }
}

/// One resolution step keeps the number of runs.
pub proof fn lemma_resolve_step_len(ch: Seq<Chunk>, idx: int, dominant_rtl: bool)
    requires
        0 <= idx < ch.len(),
    ensures
        spec_resolve_step(ch, idx, dominant_rtl).len() == ch.len(),
{
}

/// The runs after adjacent runs of equal class have merged, from `i` on:
/// a merged run keeps the left run's start and takes the right run's end,
/// and the position is rechecked after each merge.
pub open spec fn spec_merge_run(ch: Seq<Chunk>, i: int) -> Seq<Chunk>
    decreases ch.len() - i,
{
    if i < 0 || i + 1 >= ch.len() {
        ch
    } else if ch[i].t == ch[i + 1].t {
        spec_merge_run(
            ch.update(i, Chunk { start: ch[i].start, end: ch[i + 1].end, t: ch[i].t }).remove(
                i + 1,
            ),
            i,
        )
    } else {
        spec_merge_run(ch, i + 1)
    }
}

/// The code units one run emits: its span, reversed and mirrored if the
/// run reads right to left.  A run whose bounds do not name a span of the
/// line emits nothing.
pub open spec fn spec_chunk_units(line: Seq<u16>, c: Chunk) -> Seq<u16> {
    if c.start <= c.end && c.end <= line.len() {
        if c.t == Type::Rtl {
            spec_mirror_all(line.subrange(c.start as int, c.end as int).reverse())
        } else {
            line.subrange(c.start as int, c.end as int)
        }
    } else {
        Seq::empty()
    }
}

/// The code units all the runs emit, in order.
pub open spec fn spec_emit_chunks(line: Seq<u16>, ch: Seq<Chunk>) -> Seq<u16>
    decreases ch.len(),
{
    if ch.len() == 0 {
        Seq::empty()
    } else {
        spec_chunk_units(line, ch[0]) + spec_emit_chunks(line, ch.drop_first())
    }
}

/// One line after bidirectional reordering: the initial runs are formed,
/// neutrals and weaks resolved, equal neighbours merged, the whole run
/// list reversed when the line is right-to-left dominant, and each run
/// emitted.
pub open spec fn spec_bidi_line(line: Seq<u16>) -> Seq<u16> {
    if line.len() == 0 {
        Seq::empty()
    } else {
        let cur0 = spec_get_type(line[0]);
        let dominant_rtl = if cur0 != Type::Neutral && cur0 != Type::Weak {
            cur0 == Type::Rtl
        } else {
            spec_dominant_from(line, 0) == Type::Rtl
        };
        let cur = if cur0 == Type::Neutral || cur0 == Type::Weak {
            if dominant_rtl {
                Type::Rtl
            } else {
                Type::Ltr
            }
        } else {
            cur0
        };
        let chunks = spec_chunks_from(line, 0, 0, cur);
        let resolved = spec_resolve_run(chunks, 0, dominant_rtl);
        let merged = spec_merge_run(resolved, 0);
        let ordered = if dominant_rtl {
            merged.reverse()
        } else {
            merged
        };
        spec_emit_chunks(line, ordered)
    }
}

/// The reordered lines from index `k` on, joined with a line feed.
pub open spec fn spec_bidi_lines(s: Seq<u16>, lines: Seq<Line>, k: int) -> Seq<u16>
    decreases lines.len() - k,
{
    if k < 0 || k >= lines.len() {
        Seq::empty()
    } else {
        spec_bidi_line(s.subrange(lines[k].start as int, lines[k].end as int)) + (if k
            != lines.len() - 1 {
            seq![0x000Au16]
        } else {
            Seq::empty()
        }) + spec_bidi_lines(s, lines, k + 1)
    }
}

/// The whole bidirectional pass over the input.
pub open spec fn spec_process_bidi(s: Seq<u16>) -> Seq<u16> {
    spec_bidi_lines(s, spec_lines(s), 0)
}

/// Emission splits over the run list.
proof fn lemma_emit_chunks_append(line: Seq<u16>, a: Seq<Chunk>, b: Seq<Chunk>)
    ensures
        spec_emit_chunks(line, a + b) == spec_emit_chunks(line, a) + spec_emit_chunks(line, b),
    decreases a.len(),
{
    if a.len() == 0 {
        assert(a + b =~= b);
        assert(spec_emit_chunks(line, a) + spec_emit_chunks(line, b) =~= spec_emit_chunks(line, b));
    } else {
        lemma_emit_chunks_append(line, a.drop_first(), b);
        assert((a + b).drop_first() =~= a.drop_first() + b);
        assert(spec_emit_chunks(line, a + b) =~= spec_emit_chunks(line, a) + spec_emit_chunks(
            line,
            b,
        ));
    }
}

/// One run emits exactly its units.
proof fn lemma_emit_chunks_singleton(line: Seq<u16>, c: Chunk)
    ensures
        spec_emit_chunks(line, seq![c]) == spec_chunk_units(line, c),
{
    let sc = seq![c];
    assert(sc.drop_first() =~= Seq::<Chunk>::empty());
    assert(spec_emit_chunks(line, sc.drop_first()) == Seq::<u16>::empty());
    assert(spec_emit_chunks(line, sc) =~= spec_chunk_units(line, c));
}

/// Reorder one line: form the initial runs, resolve neutral and weak
/// runs, merge equal neighbours, reverse the run list if the line reads
/// right to left, and emit every run.
fn bidi_line(line: &Vec<u16>) -> (r: Vec<u16>)
    ensures
        r@ == spec_bidi_line(line@),
{
    let mut out: Vec<u16> = Vec::new();
    if line.len() == 0 {
        return out;
    }
    let cur0 = get_type(&line[0]);
    let dominant_rtl = if cur0 != Type::Neutral && cur0 != Type::Weak {
        cur0 == Type::Rtl
    } else {
        find_dominant_type(line.as_slice()) == Type::Rtl
    };
    let cur_init = if cur0 == Type::Neutral || cur0 == Type::Weak {
        if dominant_rtl {
            Type::Rtl
        } else {
            Type::Ltr
        }
    } else {
        cur0
    };
    // group the line into direction-homogeneous runs
    let mut chunks: Vec<Chunk> = Vec::new();
    let mut cur = cur_init;
    let mut start: usize = 0;
    let mut i: usize = 0;
    while i < line.len()
        invariant
            start <= i <= line@.len(),
            chunks@ + spec_chunks_from(line@, i as int, start as int, cur) == spec_chunks_from(
                line@,
                0,
                0,
                cur_init,
            ),
        decreases line@.len() - i,
    {
        let ghost ch0 = chunks@;
        let t = get_type(&line[i]);
        if t != cur {
            chunks.push(Chunk { start, end: i, t: cur });
            proof {
                assert(ch0 + (seq![Chunk { start, end: i, t: cur }] + spec_chunks_from(
                    line@,
                    i + 1 as int,
                    i as int,
                    t,
                )) =~= chunks@ + spec_chunks_from(line@, i + 1 as int, i as int, t));
            }
            start = i;
            cur = t;
        }
        i += 1;
    }
    if start != line.len() {
        let ghost ch0 = chunks@;
        chunks.push(Chunk { start, end: line.len(), t: cur });
        proof {
            assert(ch0 + seq![Chunk { start, end: line@.len() as usize, t: cur }] =~= chunks@);
        }
    } else {
        proof {
            assert(chunks@ + Seq::<Chunk>::empty() =~= chunks@);
        }
    }
    assert(chunks@ == spec_chunks_from(line@, 0, 0, cur_init));
    // resolve neutral and weak runs
    let ghost chb = chunks@;
    let mut idx: usize = 0;
    while idx < chunks.len()
        invariant
            idx <= chunks@.len(),
            spec_resolve_run(chb, 0, dominant_rtl) == spec_resolve_run(
                chunks@,
                idx as int,
                dominant_rtl,
            ),
        decreases chunks@.len() - idx,
    {
        let ghost cv = chunks@;
        let n = chunks.len();
        let c = chunks[idx];
        if c.t == Type::Neutral {
            if idx == 0 {
                if n > 1 {
                    let t1 = chunks[1].t;
                    chunks.set(0, Chunk { t: t1, ..c });
                }
            } else if idx == n - 1 {
                // a trailing neutral keeps the class it carries
            } else if chunks[idx - 1].t == chunks[idx + 1].t {
                let tp = chunks[idx - 1].t;
                chunks.set(idx, Chunk { t: tp, ..c });
            } else {
                chunks.set(
                    idx,
                    Chunk {
                        t: if dominant_rtl {
                            Type::Rtl
                        } else {
                            Type::Ltr
                        },
                        ..c
                    },
                );
            }
        } else if c.t == Type::Weak && idx != 0 && !dominant_rtl {
            if chunks[idx - 1].t == Type::Rtl {
                let a = chunks[idx - 1];
                chunks.set(idx - 1, c);
                chunks.set(idx, a);
            }
        }
        proof {
            assert(chunks@ == spec_resolve_step(cv, idx as int, dominant_rtl));
            assert(spec_resolve_run(cv, idx as int, dominant_rtl) == spec_resolve_run(
                chunks@,
                idx + 1 as int,
                dominant_rtl,
            ));
        }
        idx += 1;
    }
    assert(chunks@ == spec_resolve_run(chb, 0, dominant_rtl));
    // merge adjacent runs of equal class
    let ghost chr = chunks@;
    let mut m: usize = 0;
    while chunks.len() > 1 && m < chunks.len() - 1
        invariant
            m <= chunks@.len(),
            spec_merge_run(chr, 0) == spec_merge_run(chunks@, m as int),
        decreases chunks@.len() - m,
    {
        let ghost cv = chunks@;
        if chunks[m].t == chunks[m + 1].t {
            let ci = chunks[m];
            let ne = chunks[m + 1].end;
            chunks.set(m, Chunk { start: ci.start, end: ne, t: ci.t });
            chunks.remove(m + 1);
            proof {
                assert(chunks@ == cv.update(
                    m as int,
                    Chunk { start: cv[m as int].start, end: cv[m as int + 1].end, t: cv[m as int].t },
                ).remove(m as int + 1));
                assert(spec_merge_run(cv, m as int) == spec_merge_run(chunks@, m as int));
            }
        } else {
            proof {
                assert(spec_merge_run(cv, m as int) == spec_merge_run(cv, m + 1 as int));
            }
            m += 1;
        }
    }
    assert(chunks@ == spec_merge_run(chr, 0));
    // when the line reads right to left, the runs come out in reverse order
    let ghost chm = chunks@;
    let mut ordered: Vec<Chunk> = Vec::new();
    if dominant_rtl {
        let mut k: usize = chunks.len();
        while k > 0
            invariant
                k <= chunks@.len(),
                chunks@ == chm,
                ordered@.len() == chm.len() - k,
                forall|j: int| 0 <= j < ordered@.len() ==> ordered@[j] == chm[chm.len() - 1 - j],
            decreases k,
        {
            ordered.push(chunks[k - 1]);
            k -= 1;
        }
        proof {
            assert(ordered@ =~= chm.reverse());
        }
    } else {
        let mut k: usize = 0;
        while k < chunks.len()
            invariant
                k <= chunks@.len(),
                chunks@ == chm,
                ordered@ == chm.take(k as int),
            decreases chunks@.len() - k,
        {
            ordered.push(chunks[k]);
            proof {
                assert(chm.take(k + 1 as int) =~= chm.take(k as int).push(chm[k as int]));
            }
            k += 1;
        }
        proof {
            assert(ordered@ =~= chm);
        }
    }
    // emit every run
    let ghost ov = ordered@;
    let mut e: usize = 0;
    while e < ordered.len()
        invariant
            e <= ov.len(),
            ordered@ == ov,
            line@.len() <= usize::MAX,
            out@ == spec_emit_chunks(line@, ov.take(e as int)),
        decreases ov.len() - e,
    {
        let ghost out0 = out@;
        let c = ordered[e];
        if c.start <= c.end && c.end <= line.len() {
            if c.t == Type::Rtl {
                // reversed and mirrored
                let mut rv: Vec<u16> = Vec::new();
                let mut k: usize = c.end;
                while k > c.start
                    invariant
                        c.start <= k <= c.end <= line@.len(),
                        rv@.len() == c.end - k,
                        forall|j: int| 0 <= j < rv@.len() ==> rv@[j] == line@[c.end - 1 - j],
                    decreases k,
                {
                    rv.push(line[k - 1]);
                    k -= 1;
                }
                proof {
                    assert(rv@ =~= line@.subrange(c.start as int, c.end as int).reverse());
                }
                mirror_adjust_string(&mut rv);
                out.append(&mut rv);
            } else {
                let mut k: usize = c.start;
                while k < c.end
                    invariant
                        c.start <= k <= c.end <= line@.len(),
                        out@ == out0 + line@.subrange(c.start as int, k as int),
                    decreases c.end - k,
                {
                    out.push(line[k]);
                    proof {
                        assert(line@.subrange(c.start as int, k + 1 as int) == line@.subrange(
                            c.start as int,
                            k as int,
                        ).push(line@[k as int]));
                    }
                    k += 1;
                }
            }
        }
        proof {
            assert(out@ =~= out0 + spec_chunk_units(line@, c));
            lemma_emit_chunks_append(line@, ov.take(e as int), seq![c]);
            lemma_emit_chunks_singleton(line@, c);
            assert(ov.take(e + 1 as int) =~= ov.take(e as int) + seq![c]);
        }
        e += 1;
    }
    proof {
        assert(ov.take(ov.len() as int) =~= ov);
    }
    out
}

/// Reorder a buffer of text for display: split it into lines, reorder
/// each line's runs by direction, reverse and mirror the right-to-left
/// runs, and join the lines with a line feed.
pub fn process_bidi_text(input: &[u16]) -> (r: Vec<u16>)
    ensures
        r@ == spec_process_bidi(input@),
{
    let ghost s = input@;
    let mut result: Vec<u16> = Vec::new();
    // split the input into lines
    let mut lines: Vec<Line> = Vec::new();
    let mut start: usize = 0;
    let mut idx: usize = 0;
    while idx < input.len()
        invariant
            s == input@,
            start <= idx <= s.len(),
            lines@ + spec_lines_from(s, idx as int, start as int) == spec_lines_from(s, 0, 0),
            forall|k: int| 0 <= k < lines@.len() ==> ((#[trigger] lines@[k]).start
                < lines@[k].end <= s.len()),
        decreases s.len() - idx,
    {
        let ghost lv = lines@;
        let c = input[idx];
        if c == 0x000A || c == 0x000D {
            if start != idx {
                lines.push(Line { start, end: idx });
                proof {
                    assert(lv + (seq![Line { start, end: idx }] + spec_lines_from(
                        s,
                        idx + 1 as int,
                        idx + 1 as int,
                    )) =~= lines@ + spec_lines_from(s, idx + 1 as int, idx + 1 as int));
                }
            }
            start = idx + 1;
        }
        idx += 1;
    }
    if start < input.len() {
        let ghost lv = lines@;
        lines.push(Line { start, end: input.len() });
        proof {
            assert(lv + seq![Line { start, end: s.len() as usize }] =~= lines@);
        }
    } else {
        proof {
            assert(lines@ + Seq::<Line>::empty() =~= lines@);
        }
    }
    assert(lines@ == spec_lines(s));
    // reorder every line and join them with a line feed
    let ghost lseq = lines@;
    let mut li: usize = 0;
    while li < lines.len()
        invariant
            s == input@,
            lines@ == lseq,
            li <= lseq.len(),
            forall|k: int| 0 <= k < lseq.len() ==> ((#[trigger] lseq[k]).start < lseq[k].end
                <= s.len()),
            spec_bidi_lines(s, lseq, 0) == result@ + spec_bidi_lines(s, lseq, li as int),
        decreases lseq.len() - li,
    {
        let ghost res0 = result@;
        let line = lines[li];
        let mut line_vec: Vec<u16> = Vec::new();
        let mut k: usize = line.start;
        while k < line.end
            invariant
                s == input@,
                line.start <= k <= line.end <= s.len(),
                line_vec@ == s.subrange(line.start as int, k as int),
            decreases line.end - k,
        {
            line_vec.push(input[k]);
            proof {
                assert(s.subrange(line.start as int, k + 1 as int) == s.subrange(
                    line.start as int,
                    k as int,
                ).push(s[k as int]));
            }
            k += 1;
        }
        let mut shaped = bidi_line(&line_vec);
        result.append(&mut shaped);
        if li != lines.len() - 1 {
            result.push(0x000A);
            proof {
                assert(result@ =~= res0 + (spec_bidi_line(s.subrange(
                    line.start as int,
                    line.end as int,
                )) + seq![0x000Au16]));
            }
        } else {
            proof {
                assert(result@ =~= res0 + (spec_bidi_line(s.subrange(
                    line.start as int,
                    line.end as int,
                )) + Seq::<u16>::empty()));
            }
        }
        proof {
            assert(spec_bidi_lines(s, lseq, li as int) == spec_bidi_line(s.subrange(
                lseq[li as int].start as int,
                lseq[li as int].end as int,
            )) + (if li as int != lseq.len() - 1 {
                seq![0x000Au16]
            } else {
                Seq::<u16>::empty()
            }) + spec_bidi_lines(s, lseq, li + 1 as int));
            assert(spec_bidi_lines(s, lseq, 0) =~= result@ + spec_bidi_lines(
                s,
                lseq,
                li + 1 as int,
            ));
        }
        li += 1;
    }
    result
}

/// Two neighbouring runs meet without gap or overlap.
pub open spec fn chunk_adjacent(ch: Seq<Chunk>, k: int) -> bool {
    ch[k].end == ch[k + 1].start
}

/// A run's bounds are in order.
pub open spec fn chunk_ordered(ch: Seq<Chunk>, k: int) -> bool {
    ch[k].start <= ch[k].end
}

/// The runs cover `p .. n` of their line without gap or overlap.
pub open spec fn chunks_tile(ch: Seq<Chunk>, p: int, n: int) -> bool {
    if ch.len() == 0 {
        p == n
    } else {
        ch[0].start == p && ch[ch.len() - 1].end == n && (forall|k: int|
            0 <= k < ch.len() - 1 ==> #[trigger] chunk_adjacent(ch, k)) && (forall|k: int|
            0 <= k < ch.len() ==> #[trigger] chunk_ordered(ch, k))
    }
}

/// No run of the list reads right to left.
pub open spec fn chunks_no_rtl(ch: Seq<Chunk>) -> bool {
    forall|k: int| 0 <= k < ch.len() ==> (#[trigger] ch[k]).t != Type::Rtl
}

/// Without a line break, the whole input is one line.
proof fn lemma_lines_single(s: Seq<u16>, idx: int, start: int)
    requires
        0 <= start <= idx <= s.len(),
        s.len() <= usize::MAX,
        forall|j: int| 0 <= j < s.len() ==> #[trigger] s[j] != 0x000A && s[j] != 0x000D,
    ensures
        spec_lines_from(s, idx, start) == if start < s.len() {
            seq![Line { start: start as usize, end: s.len() as usize }]
        } else {
            Seq::<Line>::empty()
        },
    decreases s.len() - idx,
{
    if idx < s.len() {
        lemma_lines_single(s, idx + 1, start);
    }
}

/// Without a right-to-left unit, no direction scan answers right to left.
proof fn lemma_dominant_not_rtl(s: Seq<u16>, k: int)
    requires
        forall|j: int| 0 <= j < s.len() ==> !spec_is_rtl(#[trigger] s[j]),
    ensures
        spec_dominant_from(s, k) != Type::Rtl,
    decreases s.len() - k,
{
    if 0 <= k < s.len() && !(spec_get_type(s[k]) == Type::Rtl || spec_get_type(s[k])
        == Type::Ltr) {
        lemma_dominant_not_rtl(s, k + 1);
    }
}

/// Without right-to-left units, the initial runs tile the line and none
/// reads right to left.
proof fn lemma_chunks_from_tile(line: Seq<u16>, idx: int, start: int, cur: Type)
    requires
        0 <= start <= idx <= line.len(),
        line.len() <= usize::MAX,
        cur != Type::Rtl,
        forall|j: int| 0 <= j < line.len() ==> !spec_is_rtl(#[trigger] line[j]),
    ensures
        chunks_tile(spec_chunks_from(line, idx, start, cur), start, line.len() as int),
        chunks_no_rtl(spec_chunks_from(line, idx, start, cur)),
    decreases line.len() - idx,
{
    let ch = spec_chunks_from(line, idx, start, cur);
    if idx >= line.len() {
        if start != line.len() {
            assert forall|k: int| 0 <= k < ch.len() implies #[trigger] chunk_ordered(ch, k) by {
                assert(ch[0].start == start && ch[0].end == line.len());
            }
        }
    } else if spec_get_type(line[idx]) != cur {
        lemma_chunks_from_tile(line, idx + 1, idx, spec_get_type(line[idx]));
        let rest = spec_chunks_from(line, idx + 1, idx, spec_get_type(line[idx]));
        assert(rest.len() > 0 ==> rest[0].start == idx && rest[rest.len() - 1].end == line.len());
        assert forall|k: int| 0 <= k < ch.len() - 1 implies #[trigger] chunk_adjacent(ch, k) by {
            if k == 0 {
                assert(ch[1] == rest[0]);
                assert(ch[0].end == idx);
            } else {
                assert(ch[k] == rest[k - 1] && ch[k + 1] == rest[k]);
                assert(chunk_adjacent(rest, k - 1));
            }
        }
        assert forall|k: int| 0 <= k < ch.len() implies #[trigger] chunk_ordered(ch, k) by {
            if k > 0 {
                assert(ch[k] == rest[k - 1]);
                assert(chunk_ordered(rest, k - 1));
            }
        }
        assert forall|k: int| 0 <= k < ch.len() implies (#[trigger] ch[k]).t != Type::Rtl by {
            if k > 0 {
                assert(ch[k] == rest[k - 1]);
            }
        }
        assert(ch[ch.len() - 1].end == line.len());
    } else {
        lemma_chunks_from_tile(line, idx + 1, start, cur);
    }
}

/// Without right-to-left runs or dominance, one resolution step changes
/// only classes, never spans, and brings in no right-to-left class.
proof fn lemma_resolve_step_frame(ch: Seq<Chunk>, idx: int, p: int, n: int)
    requires
        0 <= idx < ch.len(),
        chunks_tile(ch, p, n),
        chunks_no_rtl(ch),
    ensures
        chunks_tile(spec_resolve_step(ch, idx, false), p, n),
        chunks_no_rtl(spec_resolve_step(ch, idx, false)),
{
    let r = spec_resolve_step(ch, idx, false);
    assert(r.len() == ch.len());
    assert forall|k: int| 0 <= k < r.len() implies (#[trigger] r[k]).start == ch[k].start
        && r[k].end == ch[k].end && r[k].t != Type::Rtl by {
        if k != idx {
            assert(r[k] == ch[k]);
        }
    }
    assert(r[0].start == p && r[r.len() - 1].end == n);
    assert forall|k: int| 0 <= k < r.len() - 1 implies #[trigger] chunk_adjacent(r, k) by {
        assert(chunk_adjacent(ch, k));
        assert(r[k].end == ch[k].end && r[k + 1].start == ch[k + 1].start);
    }
    assert forall|k: int| 0 <= k < r.len() implies #[trigger] chunk_ordered(r, k) by {
        assert(chunk_ordered(ch, k));
    }
}

/// The whole resolution pass keeps the tiling and stays free of
/// right-to-left runs when the line is not right-to-left dominant.
proof fn lemma_resolve_run_frame(ch: Seq<Chunk>, idx: int, p: int, n: int)
    requires
        chunks_tile(ch, p, n),
        chunks_no_rtl(ch),
    ensures
        chunks_tile(spec_resolve_run(ch, idx, false), p, n),
        chunks_no_rtl(spec_resolve_run(ch, idx, false)),
    decreases ch.len() - idx,
{
    if 0 <= idx < ch.len() {
        lemma_resolve_step_frame(ch, idx, p, n);
        lemma_resolve_step_len(ch, idx, false);
        lemma_resolve_run_frame(spec_resolve_step(ch, idx, false), idx + 1, p, n);
    }
}

/// Merging equal neighbours keeps the tiling and brings in no
/// right-to-left run.
proof fn lemma_merge_run_frame(ch: Seq<Chunk>, i: int, p: int, n: int)
    requires
        chunks_tile(ch, p, n),
        chunks_no_rtl(ch),
    ensures
        chunks_tile(spec_merge_run(ch, i), p, n),
        chunks_no_rtl(spec_merge_run(ch, i)),
    decreases ch.len() - i,
{
    if i >= 0 && i + 1 < ch.len() {
        if ch[i].t == ch[i + 1].t {
            let m = ch.update(i, Chunk { start: ch[i].start, end: ch[i + 1].end, t: ch[i].t }).remove(
                i + 1,
            );
            assert(m.len() == ch.len() - 1);
            assert forall|k: int| 0 <= k < m.len() implies (#[trigger] m[k]).t != Type::Rtl by {
                if k < i {
                    assert(m[k] == ch[k]);
                } else if k == i {
                } else {
                    assert(m[k] == ch[k + 1]);
                }
            }
            assert(m[0].start == p);
            assert(m[m.len() - 1].end == n);
            assert forall|k: int| 0 <= k < m.len() - 1 implies #[trigger] chunk_adjacent(m, k) by {
                if k < i - 1 {
                    assert(m[k] == ch[k] && m[k + 1] == ch[k + 1]);
                    assert(chunk_adjacent(ch, k));
                } else if k == i - 1 {
                    assert(m[k] == ch[k]);
                    assert(chunk_adjacent(ch, k));
                } else if k == i {
                    assert(m[k + 1] == ch[k + 2]);
                    assert(chunk_adjacent(ch, i + 1));
                } else {
                    assert(m[k] == ch[k + 1] && m[k + 1] == ch[k + 2]);
                    assert(chunk_adjacent(ch, k + 1));
                }
            }
            assert forall|k: int| 0 <= k < m.len() implies #[trigger] chunk_ordered(m, k) by {
                if k < i {
                    assert(m[k] == ch[k]);
                    assert(chunk_ordered(ch, k));
                } else if k == i {
                    assert(chunk_ordered(ch, i));
                    assert(chunk_adjacent(ch, i));
                    assert(chunk_ordered(ch, i + 1));
                } else {
                    assert(m[k] == ch[k + 1]);
                    assert(chunk_ordered(ch, k + 1));
                }
            }
            lemma_merge_run_frame(m, i, p, n);
        } else {
            lemma_merge_run_frame(ch, i + 1, p, n);
        }
    }
}

/// Dropping the first run of a tiling leaves a tiling.
proof fn lemma_tile_drop_first(ch: Seq<Chunk>, p: int, n: int)
    requires
        chunks_tile(ch, p, n),
        ch.len() > 0,
    ensures
        chunks_tile(ch.drop_first(), ch[0].end as int, n),
        chunks_no_rtl(ch) ==> chunks_no_rtl(ch.drop_first()),
{
    let rest = ch.drop_first();
    if rest.len() == 0 {
        assert(ch[0].end == n);
    } else {
        assert(chunk_adjacent(ch, 0));
        assert(rest[0].start == ch[0].end);
        assert(rest[rest.len() - 1] == ch[ch.len() - 1]);
        assert forall|k: int| 0 <= k < rest.len() - 1 implies #[trigger] chunk_adjacent(
            rest,
            k,
        ) by {
            assert(rest[k] == ch[k + 1] && rest[k + 1] == ch[k + 2]);
            assert(chunk_adjacent(ch, k + 1));
        }
        assert forall|k: int| 0 <= k < rest.len() implies #[trigger] chunk_ordered(rest, k) by {
            assert(rest[k] == ch[k + 1]);
            assert(chunk_ordered(ch, k + 1));
        }
    }
    if chunks_no_rtl(ch) {
        assert forall|k: int| 0 <= k < rest.len() implies (#[trigger] rest[k]).t != Type::Rtl by {
            assert(rest[k] == ch[k + 1]);
        }
    }
}

/// Runs that tile the line and do not read right to left emit the line's
/// span between their bounds, unchanged.
proof fn lemma_emit_tiling(line: Seq<u16>, ch: Seq<Chunk>, p: int)
    requires
        chunks_tile(ch, p, line.len() as int),
        chunks_no_rtl(ch),
        0 <= p,
    ensures
        spec_emit_chunks(line, ch) == line.subrange(p, line.len() as int),
    decreases ch.len(),
{
    if ch.len() == 0 {
        assert(spec_emit_chunks(line, ch) =~= line.subrange(p, line.len() as int));
    } else {
        lemma_tile_drop_first(ch, p, line.len() as int);
        let rest = ch.drop_first();
        assert(chunk_ordered(ch, 0));
        // the first run's end is below the line's length
        if rest.len() == 0 {
            assert(ch[0].end == line.len());
        } else {
            assert(rest[rest.len() - 1].end == line.len());
            lemma_tile_end_le(rest, ch[0].end as int, line.len() as int);
        }
        lemma_emit_tiling(line, rest, ch[0].end as int);
        assert(spec_chunk_units(line, ch[0]) == line.subrange(
            ch[0].start as int,
            ch[0].end as int,
        ));
        assert(spec_emit_chunks(line, ch) =~= line.subrange(p, line.len() as int));
    }
}

/// The left bound of a tiling never passes its right bound.
proof fn lemma_tile_end_le(ch: Seq<Chunk>, p: int, n: int)
    requires
        chunks_tile(ch, p, n),
    ensures
        p <= n,
    decreases ch.len(),
{
    if ch.len() > 0 {
        assert(chunk_ordered(ch, 0));
        lemma_tile_drop_first(ch, p, n);
        lemma_tile_end_le(ch.drop_first(), ch[0].end as int, n);
    }
}

/// One line without right-to-left units passes through the reordering
/// unchanged.
proof fn lemma_bidi_line_inert(line: Seq<u16>)
    requires
        line.len() <= usize::MAX,
        forall|j: int| 0 <= j < line.len() ==> !spec_is_rtl(#[trigger] line[j]),
    ensures
        spec_bidi_line(line) == line,
{
    if line.len() > 0 {
        let cur0 = spec_get_type(line[0]);
        lemma_dominant_not_rtl(line, 0);
        assert(cur0 != Type::Rtl);
        let dominant_rtl = if cur0 != Type::Neutral && cur0 != Type::Weak {
            cur0 == Type::Rtl
        } else {
            spec_dominant_from(line, 0) == Type::Rtl
        };
        assert(!dominant_rtl);
        let cur = if cur0 == Type::Neutral || cur0 == Type::Weak {
            Type::Ltr
        } else {
            cur0
        };
        lemma_chunks_from_tile(line, 0, 0, cur);
        let chunks = spec_chunks_from(line, 0, 0, cur);
        lemma_resolve_run_frame(chunks, 0, 0, line.len() as int);
        let resolved = spec_resolve_run(chunks, 0, false);
        lemma_merge_run_frame(resolved, 0, 0, line.len() as int);
        let merged = spec_merge_run(resolved, 0);
        lemma_emit_tiling(line, merged, 0);
        assert(line.subrange(0, line.len() as int) =~= line);
    }
}

/// Idempotence of the bidirectional pass on left-to-right text: a buffer
/// without right-to-left units and without hard line breaks comes back
/// unchanged.
pub proof fn lemma_process_bidi_inert(s: Seq<u16>)
    requires
        s.len() <= usize::MAX,
        forall|j: int| 0 <= j < s.len() ==> !spec_is_rtl(#[trigger] s[j]),
        forall|j: int| 0 <= j < s.len() ==> #[trigger] s[j] != 0x000A && s[j] != 0x000D,
    ensures
        spec_process_bidi(s) == s,
{
    lemma_lines_single(s, 0, 0);
    if s.len() == 0 {
        assert(spec_lines(s) =~= Seq::<Line>::empty());
    } else {
        let lines = spec_lines(s);
        assert(lines.len() == 1);
        let line = s.subrange(0, s.len() as int);
        assert forall|j: int| 0 <= j < line.len() implies !spec_is_rtl(#[trigger] line[j]) by {
            assert(line[j] == s[j]);
        }
        lemma_bidi_line_inert(line);
        assert(spec_bidi_lines(s, lines, 1) == Seq::<u16>::empty());
        assert(spec_process_bidi(s) =~= s);
    }
}

} // verus!
