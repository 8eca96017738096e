//! Chunk planning: derives the fixed per-chunk duration, each chunk's start
//! offset and fade window, and the feasibility of the whole plan, all in
//! exact rational arithmetic so that the partition of the timeline is
//! gap-free and overlap-free for every tempo.

use vstd::prelude::*;

verus! {

/// An exact rational number of seconds. The value represented is
/// `num / den`; a well-formed value has a positive denominator.
#[derive(Clone, Copy)]
pub struct Secs {
    pub num: i64,
    pub den: u64,
}

impl Secs {
    /// A `Secs` is well formed when its denominator is positive.
    pub open spec fn wf(self) -> bool {
        self.den > 0
    }

    /// The value of `self` is exactly the rational `n / d` (for `d > 0`).
    pub open spec fn is_rat(self, n: int, d: int) -> bool {
        d > 0 && self.num * d == n * self.den
    }
}

/// `a` equals `k * b`, as exact rationals.
pub open spec fn rat_is_multiple(a: Secs, k: int, b: Secs) -> bool {
    a.num * b.den == k * b.num * a.den
}

/// `a + b` equals `c`, as exact rationals.
pub open spec fn rat_sum_is(a: Secs, b: Secs, c: Secs) -> bool {
    (a.num * b.den + b.num * a.den) * c.den == c.num * (a.den * b.den)
}

/// `a` is strictly less than `b`, as exact rationals
/// (meaningful only for well-formed values).
pub open spec fn rat_lt(a: Secs, b: Secs) -> bool {
    a.num * b.den < b.num * a.den
}

/// `a + b` is at most `c`, as exact rationals
/// (meaningful only for well-formed values).
pub open spec fn rat_sum_le(a: Secs, b: Secs, c: Secs) -> bool {
    (a.num * b.den + b.num * a.den) * c.den <= c.num * (a.den * b.den)
}

/// One chunk of the plan: a sixteenth-note window starting at
/// `index * length` with a fade-out directive that starts `fade` seconds
/// before the window's end and whose envelope lasts the whole window.
pub struct Chunk {
    pub index: u32,
    pub start: Secs,
    pub length: Secs,
    pub fade_start: Secs,
    pub fade_duration: Secs,
}

/// One sixteenth note at `bpm` beats per minute: `60 / (bpm * 4)` seconds.
pub fn chunk_length_seconds(bpm: u32) -> (r: Secs)
    requires
        bpm > 0,
    ensures
        r.num == 60,
        r.den == 4 * bpm,
        r.wf(),
        r.is_rat(60, 4 * bpm),
{
    Secs { num: 60, den: 4 * (bpm as u64) }
}

/// The plan's total duration: `chunk_count` chunks of `60 / (bpm * 4)`
/// seconds each, kept as the exact rational `60 * chunk_count / (4 * bpm)`.
pub fn total_planned_seconds(bpm: u32, chunk_count: u32) -> (r: Secs)
    requires
        bpm > 0,
    ensures
        r.num == 60 * chunk_count,
        r.den == 4 * bpm,
        r.wf(),
        r.is_rat(60 * chunk_count, 4 * bpm),
{
    Secs { num: 60 * (chunk_count as i64), den: 4 * (bpm as u64) }
}

/// The chunk at `index`: its start offset is computed multiplicatively from
/// the index (never accumulated), its length is one sixteenth note, its
/// fade-out starts `fade_ms / 1000` seconds before the window ends, and the
/// fade envelope lasts the full window, exactly as the engine's fade
/// directive is built.
pub fn chunk(bpm: u32, fade_ms: u32, index: u32) -> (c: Chunk)
    requires
        bpm > 0,
        (bpm as int) * (fade_ms as int) <= 0x1000_0000_0000_0000,
    ensures
        c.index == index,
        c.start.num == 60 * index,
        c.start.den == 4 * bpm,
        c.length.num == 60,
        c.length.den == 4 * bpm,
        c.fade_duration == c.length,
        c.fade_start.num == 60000 - 4 * (bpm as int) * (fade_ms as int),
        c.fade_start.den == 4000 * bpm,
        c.start.wf() && c.length.wf() && c.fade_start.wf() && c.fade_duration.wf(),
        c.start.is_rat(60 * index, 4 * bpm),
        rat_is_multiple(c.start, index as int, c.length),
{
    let length = chunk_length_seconds(bpm);
    let start = Secs { num: 60 * (index as i64), den: 4 * (bpm as u64) };
    let beat_fade: u64 = (bpm as u64) * (fade_ms as u64);
    let fade_start = Secs {
        num: 60000 - 4 * (beat_fade as i64),
        den: 4000 * (bpm as u64),
    };
    proof {
        assert(4 * (beat_fade as int) == 4 * (bpm as int) * (fade_ms as int)) by (nonlinear_arith)
            requires
                beat_fade == (bpm as int) * (fade_ms as int),
        ;
        assert(start.num * length.den == (index as int) * length.num * start.den)
            by (nonlinear_arith)
            requires
                start.num == 60 * index,
                start.den == 4 * bpm,
                length.num == 60,
                length.den == 4 * bpm,
        ;
    }
    Chunk { index, start, length, fade_start, fade_duration: length }
}

/// The plan is feasible when its total duration fits in the measured source
/// duration, given in hundredths of a second: `60 * chunk_count / (4 * bpm)
/// <= duration_cs / 100`, cross-multiplied to the integer comparison
/// `1500 * chunk_count <= bpm * duration_cs`.
pub open spec fn feasible(bpm: int, chunk_count: int, duration_cs: int) -> bool {
    1500 * chunk_count <= bpm * duration_cs
}

/// Decides feasibility of the plan against the measured source duration.
/// Infeasibility is advisory: the caller warns and proceeds.
pub fn is_feasible(bpm: u32, chunk_count: u32, duration_cs: u64) -> (r: bool)
    requires
        bpm > 0,
    ensures
        r == feasible(bpm as int, chunk_count as int, duration_cs as int),
{
    proof {
        assert((bpm as int) * (duration_cs as int) < 0x1_0000_0000 * 0x1_0000_0000_0000_0000)
            by (nonlinear_arith)
            requires
                bpm < 0x1_0000_0000,
                duration_cs < 0x1_0000_0000_0000_0000,
                duration_cs >= 0,
        ;
    }
    1500u128 * (chunk_count as u128) <= (bpm as u128) * (duration_cs as u128)
}

/// The feasibility test decides exactly whether the rational total planned
/// duration is within the measured duration of `duration_cs` hundredths of
/// a second.
pub proof fn lemma_feasible_iff_total_within(
    total: Secs,
    bpm: int,
    chunk_count: int,
    duration_cs: int,
)
    requires
        bpm > 0,
        total.num == 60 * chunk_count,
        total.den == 4 * bpm,
    ensures
        feasible(bpm, chunk_count, duration_cs) <==> total.num * 100 <= duration_cs * total.den,
{
    assert(1500 * chunk_count <= bpm * duration_cs <==> (60 * chunk_count) * 100 <= duration_cs
        * (4 * bpm)) by (nonlinear_arith);
}

/// The total planned duration equals the chunk length times the chunk
/// count, exactly.
pub proof fn lemma_total_is_length_times_count(
    length: Secs,
    total: Secs,
    bpm: int,
    chunk_count: int,
)
    requires
        bpm > 0,
        length.num == 60,
        length.den == 4 * bpm,
        total.num == 60 * chunk_count,
        total.den == 4 * bpm,
    ensures
        rat_is_multiple(total, chunk_count, length),
{
    assert((60 * chunk_count) * (4 * bpm) == chunk_count * 60 * (4 * bpm)) by (nonlinear_arith);
}

/// Consecutive chunks are contiguous and in order: the earlier chunk's
/// start plus the common length is exactly the later chunk's start, and
/// starts strictly increase, so the windows neither overlap nor leave a
/// gap.
pub proof fn lemma_chunks_contiguous(c1: Chunk, c2: Chunk, bpm: int)
    requires
        bpm > 0,
        c1.start.num == 60 * c1.index,
        c1.start.den == 4 * bpm,
        c1.length.num == 60,
        c1.length.den == 4 * bpm,
        c2.start.num == 60 * c2.index,
        c2.start.den == 4 * bpm,
        c2.index == c1.index + 1,
    ensures
        rat_sum_is(c1.start, c1.length, c2.start),
        rat_lt(c1.start, c2.start),
{
    let i = c1.index as int;
    assert((60 * i * (4 * bpm) + 60 * (4 * bpm)) * (4 * bpm) == (60 * (i + 1)) * ((4 * bpm) * (4
        * bpm))) by (nonlinear_arith);
    assert(60 * i * (4 * bpm) < 60 * (i + 1) * (4 * bpm)) by (nonlinear_arith)
        requires
            bpm > 0,
    ;
}

/// Chunks are pairwise non-overlapping: for any two chunks in order, the
/// earlier chunk's window ends no later than the later chunk's window
/// begins.
pub proof fn lemma_chunks_disjoint(ci: Chunk, cj: Chunk, bpm: int)
    requires
        bpm > 0,
        ci.start.num == 60 * ci.index,
        ci.start.den == 4 * bpm,
        ci.length.num == 60,
        ci.length.den == 4 * bpm,
        cj.start.num == 60 * cj.index,
        cj.start.den == 4 * bpm,
        ci.index < cj.index,
    ensures
        rat_sum_le(ci.start, ci.length, cj.start),
{
    let i = ci.index as int;
    let j = cj.index as int;
    assert((60 * i * (4 * bpm) + 60 * (4 * bpm)) * (4 * bpm) <= 60 * j * ((4 * bpm) * (4 * bpm)))
        by (nonlinear_arith)
        requires
            bpm > 0,
            i + 1 <= j,
    ;
}

/// The union of the chunk windows is exactly `[0, total)`: chunk 0 starts
/// at zero, and the last chunk's window ends exactly at the total planned
/// duration.
pub proof fn lemma_plan_covers_total(first: Chunk, last: Chunk, total: Secs, bpm: int,
    chunk_count: int,
)
    requires
        bpm > 0,
        chunk_count > 0,
        first.start.num == 60 * first.index,
        first.start.den == 4 * bpm,
        first.index == 0,
        last.start.num == 60 * last.index,
        last.start.den == 4 * bpm,
        last.length.num == 60,
        last.length.den == 4 * bpm,
        last.index == chunk_count - 1,
        total.num == 60 * chunk_count,
        total.den == 4 * bpm,
    ensures
        first.start.num == 0,
        rat_sum_is(last.start, last.length, total),
{
    let i = last.index as int;
    assert((60 * i * (4 * bpm) + 60 * (4 * bpm)) * (4 * bpm) == (60 * (i + 1)) * ((4 * bpm) * (4
        * bpm))) by (nonlinear_arith);
}

/// The fade window ends exactly at the chunk's end: the fade start offset
/// plus the fade length of `fade_ms / 1000` seconds equals the chunk
/// length.
pub proof fn lemma_fade_window_ends_chunk(c: Chunk, fade: Secs, bpm: int, fade_ms: int)
    requires
        bpm > 0,
        fade.num == fade_ms,
        fade.den == 1000,
        c.length.num == 60,
        c.length.den == 4 * bpm,
        c.fade_start.num == 60000 - 4 * bpm * fade_ms,
        c.fade_start.den == 4000 * bpm,
    ensures
        rat_sum_is(c.fade_start, fade, c.length),
{
    assert(((60000 - 4 * bpm * fade_ms) * 1000 + fade_ms * (4000 * bpm)) * (4 * bpm) == 60 * ((4000
        * bpm) * 1000)) by (nonlinear_arith);
}

} // verus!
