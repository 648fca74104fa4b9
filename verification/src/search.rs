//! CRF Search Engine: picks successive candidate quality parameters and
//! converges on one whose measured perceptual score is closest to — and
//! preferably at or just above — a target.
//!
//! CRF values and scores are fixed-point integers in thousandths. The
//! engine itself never runs the encoder: it hands candidates out and takes
//! measurements back, so every decision here is a pure, verified function
//! of the state.

use vstd::prelude::*;
use crate::text::{to_chars, contains_sub, contains_seq};

verus! {

/// One tried quality parameter and the score it measured.
#[derive(Clone, Copy, Debug, PartialEq, Eq, Structural)]
pub struct Sample {
    /// The quality parameter, in thousandths.
    pub crf_milli: i64,
    /// The measured score, in thousandths.
    pub score_milli: i64,
}

/// CRF values the engine works with stay in this range.
pub const MAX_CRF_MILLI: i64 = 100000;

/// Scores the engine works with stay in this range.
pub const MAX_SCORE_MILLI: i64 = 200000;

/// Fallback parameter when there is nothing to interpolate from.
pub const DEFAULT_CRF_MILLI: i64 = 23000;

/// A sample whose parameter and score are in range.
pub open spec fn sample_bounded(s: Sample) -> bool {
    0 <= s.crf_milli <= MAX_CRF_MILLI && 0 <= s.score_milli <= MAX_SCORE_MILLI
}

/// Parameter range `(lowest, highest)` of the encoder family named in
/// `e`, as the encoders document them.
pub open spec fn crf_range_spec(e: Seq<char>) -> (i64, i64) {
    if contains_seq(e, "libx264"@) || contains_seq(e, "libx265"@) {
        (18000i64, 46000i64)
    } else if contains_seq(e, "libsvtav1"@) {
        (18000i64, 54000i64)
    } else if contains_seq(e, "nvenc"@) {
        (18000i64, 42000i64)
    } else if contains_seq(e, "vp9"@) || contains_seq(e, "libvpx"@) {
        (18000i64, 42000i64)
    } else {
        (1000i64, 50000i64)
    }
}

/// Parameter range of the encoder family named in `encoder`.
pub fn get_crf_range(encoder: &str) -> (r: (i64, i64))
    ensures
        r == crf_range_spec(encoder@),
        0 < r.0 < r.1 <= MAX_CRF_MILLI,
{
    let e = to_chars(encoder);
    if contains_sub(&e, &to_chars("libx264")) || contains_sub(&e, &to_chars("libx265")) {
        (18000, 46000)
    } else if contains_sub(&e, &to_chars("libsvtav1")) {
        (18000, 54000)
    } else if contains_sub(&e, &to_chars("nvenc")) {
        (18000, 42000)
    } else if contains_sub(&e, &to_chars("vp9")) || contains_sub(&e, &to_chars("libvpx")) {
        (18000, 42000)
    } else {
        (1000, 50000)
    }
}

/// Command-line flag that sets the constant-quality parameter for the
/// encoder family named in `e`.
pub open spec fn crf_arg_spec(e: Seq<char>) -> Seq<char> {
    if contains_seq(e, "nvenc"@) {
        "-cq"@
    } else if contains_seq(e, "libx264"@) || contains_seq(e, "libx265"@) || contains_seq(
        e,
        "libsvtav1"@,
    ) || contains_seq(e, "vp9"@) || contains_seq(e, "libvpx"@) {
        "-crf"@
    } else {
        "-q:v"@
    }
}

/// Command-line flag that sets the constant-quality parameter for
/// `encoder`.
pub fn get_crf_arg(encoder: &str) -> (r: &'static str)
    ensures
        r@ == crf_arg_spec(encoder@),
{
    let e = to_chars(encoder);
    if contains_sub(&e, &to_chars("nvenc")) {
        "-cq"
    } else if contains_sub(&e, &to_chars("libx264")) || contains_sub(&e, &to_chars("libx265"))
        || contains_sub(&e, &to_chars("libsvtav1")) || contains_sub(&e, &to_chars("vp9"))
        || contains_sub(&e, &to_chars("libvpx")) {
        "-crf"
    } else {
        "-q:v"
    }
}

/// Samples ordered by parameter, lowest first.
pub open spec fn sorted_by_crf(s: Seq<Sample>) -> bool {
    forall|i: int, j: int| 0 <= i < j < s.len() ==> s[i].crf_milli <= s[j].crf_milli
}

/// Stable insertion of `x` into the sorted sequence `s`: `x` goes after
/// every element whose parameter is not above its own.
pub open spec fn insert_sorted_spec(s: Seq<Sample>, x: Sample) -> Seq<Sample>
    decreases s.len(),
{
    if s.len() == 0 {
        seq![x]
    } else if s.last().crf_milli <= x.crf_milli {
        s.push(x)
    } else {
        insert_sorted_spec(s.drop_last(), x).push(s.last())
    }
}

/// Stable sort of `s` by parameter.
pub open spec fn sort_spec(s: Seq<Sample>) -> Seq<Sample>
    decreases s.len(),
{
    if s.len() == 0 {
        Seq::empty()
    } else {
        insert_sorted_spec(sort_spec(s.drop_last()), s.last())
    }
}

proof fn lemma_insert_sorted(s: Seq<Sample>, x: Sample)
    requires
        sorted_by_crf(s),
    ensures
        sorted_by_crf(insert_sorted_spec(s, x)),
        insert_sorted_spec(s, x).len() == s.len() + 1,
        forall|i: int|
            0 <= i < insert_sorted_spec(s, x).len() ==> s.contains(
                #[trigger] insert_sorted_spec(s, x)[i],
            ) || insert_sorted_spec(s, x)[i] == x,
    decreases s.len(),
{
    let r = insert_sorted_spec(s, x);
    if s.len() == 0 {
    } else if s.last().crf_milli <= x.crf_milli {
        assert forall|i: int| 0 <= i < r.len() implies s.contains(#[trigger] r[i]) || r[i] == x by {
            if i < s.len() {
                assert(r[i] == s[i]);
            }
        }
    } else {
        assert(sorted_by_crf(s.drop_last()));
        lemma_insert_sorted(s.drop_last(), x);
        let q = insert_sorted_spec(s.drop_last(), x);
        assert forall|i: int, j: int| 0 <= i < j < r.len() implies r[i].crf_milli
            <= r[j].crf_milli by {
            if j < q.len() {
            } else {
                assert(r[j] == s.last());
                assert(s.drop_last().contains(r[i]) || r[i] == x || i == j);
                if s.drop_last().contains(r[i]) {
                    let w = choose|w: int|
                        0 <= w < s.drop_last().len() && s.drop_last()[w] == r[i];
                    assert(s[w] == r[i]);
                }
            }
        }
        assert forall|i: int| 0 <= i < r.len() implies s.contains(#[trigger] r[i]) || r[i] == x by {
            if i < q.len() {
                if s.drop_last().contains(r[i]) {
                    let w = choose|w: int|
                        0 <= w < s.drop_last().len() && s.drop_last()[w] == r[i];
                    assert(s[w] == r[i]);
                }
            } else {
                assert(r[i] == s.last());
                assert(s[s.len() - 1] == s.last());
            }
        }
    }
}

/// The stable sort is sorted and draws its elements from its input.
pub proof fn lemma_sort_spec(s: Seq<Sample>)
    ensures
        sorted_by_crf(sort_spec(s)),
        sort_spec(s).len() == s.len(),
        forall|i: int|
            0 <= i < sort_spec(s).len() ==> s.contains(#[trigger] sort_spec(s)[i]),
    decreases s.len(),
{
    if s.len() > 0 {
        lemma_sort_spec(s.drop_last());
        lemma_insert_sorted(sort_spec(s.drop_last()), s.last());
        assert forall|i: int| 0 <= i < sort_spec(s).len() implies s.contains(
            #[trigger] sort_spec(s)[i],
        ) by {
            if sort_spec(s.drop_last()).contains(sort_spec(s)[i]) {
                let w = choose|w: int|
                    0 <= w < sort_spec(s.drop_last()).len() && sort_spec(s.drop_last())[w]
                        == sort_spec(s)[i];
                assert(s.drop_last().contains(sort_spec(s)[i]));
                let w2 = choose|w2: int|
                    0 <= w2 < s.drop_last().len() && s.drop_last()[w2] == sort_spec(s)[i];
                assert(s[w2] == sort_spec(s)[i]);
            } else {
                assert(sort_spec(s)[i] == s.last());
                assert(s[s.len() - 1] == s.last());
            }
        }
    }
}

fn insert_sorted(v: Vec<Sample>, x: Sample) -> (r: Vec<Sample>)
    ensures
        r@ == insert_sorted_spec(v@, x),
    decreases v@.len(),
{
    let mut v = v;
    if v.len() == 0 {
        v.push(x);
        proof {
            assert(v@ =~= seq![x]);
        }
        v
    } else if v[v.len() - 1].crf_milli <= x.crf_milli {
        v.push(x);
        v
    } else {
        let last = v[v.len() - 1];
        let ghost prev = v@;
        v.pop();
        proof {
            assert(v@ =~= prev.drop_last());
            assert(prev.last() == last);
        }
        let mut r = insert_sorted(v, x);
        r.push(last);
        r
    }
}

/// Sort samples by parameter, keeping the original order of equal
/// parameters.
pub fn sort_samples(v: &Vec<Sample>) -> (r: Vec<Sample>)
    ensures
        r@ == sort_spec(v@),
        sorted_by_crf(r@),
{
    let mut r: Vec<Sample> = Vec::new();
    let mut i: usize = 0;
    while i < v.len()
        invariant
            i <= v@.len(),
            r@ == sort_spec(v@.subrange(0, i as int)),
        decreases v@.len() - i,
    {
        proof {
            assert(v@.subrange(0, i + 1).drop_last() =~= v@.subrange(0, i as int));
            assert(v@.subrange(0, i + 1).last() == v@[i as int]);
        }
        r = insert_sorted(r, v[i]);
        i += 1;
    }
    proof {
        assert(v@.subrange(0, v@.len() as int) =~= v@);
        lemma_sort_spec(v@);
    }
    r
}

/// Scores straddle the target between positions `i` and `i + 1`.
pub open spec fn brackets_at(s: Seq<Sample>, target: i64, i: int) -> bool {
    let v1 = s[i].score_milli;
    let v2 = s[i + 1].score_milli;
    (if v1 < v2 {
        v1
    } else {
        v2
    }) <= target <= (if v1 < v2 {
        v2
    } else {
        v1
    })
}

/// Scores closer together than this make a pair degenerate: its midpoint
/// parameter is used instead of interpolating.
pub const FLAT_PAIR_MILLI: i64 = 100;

/// Linear interpolation between two samples, truncating toward zero as
/// the machine division does. Requires the pair not be degenerate.
pub open spec fn interp_between(c1: i64, v1: i64, c2: i64, v2: i64, target: i64) -> int {
    let num = (if target >= v1 {
        target - v1
    } else {
        v1 - target
    }) * (c2 - c1);
    let den = if v2 >= v1 {
        v2 - v1
    } else {
        v1 - v2
    };
    if (target >= v1) == (v2 >= v1) {
        c1 + num / den
    } else {
        c1 - num / den
    }
}

/// Result for the pair at `i`: the midpoint parameter for a degenerate
/// pair, linear interpolation otherwise.
pub open spec fn pair_result(s: Seq<Sample>, target: i64, i: int) -> int {
    let c1 = s[i].crf_milli;
    let v1 = s[i].score_milli;
    let c2 = s[i + 1].crf_milli;
    let v2 = s[i + 1].score_milli;
    if -FLAT_PAIR_MILLI < v2 - v1 < FLAT_PAIR_MILLI {
        (c1 + c2) / 2
    } else {
        interp_between(c1, v1, c2, v2, target)
    }
}

/// Extrapolation from the two highest-parameter samples, used when no
/// pair brackets the target: the last parameter for a degenerate pair,
/// linear extrapolation otherwise.
pub open spec fn extrapolate_spec(s: Seq<Sample>, target: i64) -> int {
    let c1 = s[s.len() - 2].crf_milli;
    let v1 = s[s.len() - 2].score_milli;
    let c2 = s[s.len() - 1].crf_milli;
    let v2 = s[s.len() - 1].score_milli;
    if -FLAT_PAIR_MILLI < v2 - v1 < FLAT_PAIR_MILLI {
        c2 as int
    } else {
        interp_between(c1, v1, c2, v2, target)
    }
}

/// Scan for the first bracketing pair from position `i` on; extrapolate
/// if none is left.
pub open spec fn interp_scan(s: Seq<Sample>, target: i64, i: int) -> int
    decreases s.len() - i,
{
    if i < 0 || i >= s.len() - 1 {
        extrapolate_spec(s, target)
    } else if brackets_at(s, target, i) {
        pair_result(s, target, i)
    } else {
        interp_scan(s, target, i + 1)
    }
}

/// Predicted parameter for `target` from the sorted samples `s`:
/// interpolation inside the first bracketing pair, extrapolation from the
/// two extreme samples otherwise, and a fixed default when fewer than two
/// samples exist.
pub open spec fn interp_spec(s: Seq<Sample>, target: i64) -> int {
    if s.len() < 2 {
        DEFAULT_CRF_MILLI as int
    } else {
        interp_scan(s, target, 0)
    }
}

fn interp_between_exec(c1: i64, v1: i64, c2: i64, v2: i64, target: i64) -> (r: i64)
    requires
        0 <= c1 <= MAX_CRF_MILLI,
        0 <= c2 <= MAX_CRF_MILLI,
        c1 <= c2,
        0 <= v1 <= MAX_SCORE_MILLI,
        0 <= v2 <= MAX_SCORE_MILLI,
        0 <= target <= MAX_SCORE_MILLI,
        v1 != v2,
    ensures
        r == interp_between(c1, v1, c2, v2, target),
{
    let a: i64 = if target >= v1 {
        target - v1
    } else {
        v1 - target
    };
    let b: i64 = c2 - c1;
    proof {
        assert(a as int * b as int <= 200000int * 100000int) by (nonlinear_arith)
            requires
                0 <= a as int <= 200000int,
                0 <= b as int <= 100000int,
        {}
        assert(a as int * b as int >= 0) by (nonlinear_arith)
            requires
                0 <= a as int,
                0 <= b as int,
        {}
    }
    let num: i64 = a * b;
    let den: i64 = if v2 >= v1 {
        v2 - v1
    } else {
        v1 - v2
    };
    proof {
        assert(0 <= num as int / den as int <= num as int) by (nonlinear_arith)
            requires
                0 <= num as int,
                1 <= den as int,
        {}
    }
    if (target >= v1) == (v2 >= v1) {
        c1 + num / den
    } else {
        c1 - num / den
    }
}

/// Predicted parameter for `target` from samples sorted by parameter.
pub fn interpolate_sorted(s: &Vec<Sample>, target: i64) -> (r: i64)
    requires
        sorted_by_crf(s@),
        forall|i: int| 0 <= i < s@.len() ==> sample_bounded(#[trigger] s@[i]),
        0 <= target <= MAX_SCORE_MILLI,
    ensures
        r == interp_spec(s@, target),
{
    if s.len() < 2 {
        return DEFAULT_CRF_MILLI;
    }
    let mut i: usize = 0;
    while i < s.len() - 1
        invariant
            s@.len() >= 2,
            i <= s@.len() - 1,
            sorted_by_crf(s@),
            forall|k: int| 0 <= k < s@.len() ==> sample_bounded(#[trigger] s@[k]),
            0 <= target <= MAX_SCORE_MILLI,
            interp_scan(s@, target, 0) == interp_scan(s@, target, i as int),
        decreases s@.len() - i,
    {
        let v1 = s[i].score_milli;
        let v2 = s[i + 1].score_milli;
        let lo = if v1 < v2 {
            v1
        } else {
            v2
        };
        let hi = if v1 < v2 {
            v2
        } else {
            v1
        };
        if lo <= target && target <= hi {
            let c1 = s[i].crf_milli;
            let c2 = s[i + 1].crf_milli;
            let d = v2 - v1;
            if -FLAT_PAIR_MILLI < d && d < FLAT_PAIR_MILLI {
                return (c1 + c2) / 2;
            }
            return interp_between_exec(c1, v1, c2, v2, target);
        }
        i += 1;
    }
    let c1 = s[s.len() - 2].crf_milli;
    let v1 = s[s.len() - 2].score_milli;
    let c2 = s[s.len() - 1].crf_milli;
    let v2 = s[s.len() - 1].score_milli;
    let d = v2 - v1;
    if -FLAT_PAIR_MILLI < d && d < FLAT_PAIR_MILLI {
        c2
    } else {
        interp_between_exec(c1, v1, c2, v2, target)
    }
}

/// Predicted parameter for `target`: the samples are sorted by parameter
/// and the first bracketing pair interpolated; without a bracket the two
/// extreme samples extrapolate; with fewer than two samples a fixed
/// default is returned.
pub fn interpolate_crf(samples: &Vec<Sample>, target: i64) -> (r: i64)
    requires
        forall|i: int| 0 <= i < samples@.len() ==> sample_bounded(#[trigger] samples@[i]),
        0 <= target <= MAX_SCORE_MILLI,
    ensures
        r == interp_spec(sort_spec(samples@), target),
{
    let sorted = sort_samples(samples);
    proof {
        lemma_sort_spec(samples@);
        assert forall|i: int| 0 <= i < sorted@.len() implies sample_bounded(
            #[trigger] sorted@[i],
        ) by {
            assert(samples@.contains(sorted@[i]));
        }
    }
    interpolate_sorted(&sorted, target)
}

/// Distance between a score and the target.
pub open spec fn dist(v: i64, t: i64) -> int {
    if v >= t {
        v - t
    } else {
        t - v
    }
}

/// Midpoint of a parameter range.
pub open spec fn mid_of(lo: i64, hi: i64) -> int {
    (lo + hi) / 2
}

proof fn lemma_mid_bounds(lo: i64, hi: i64)
    requires
        0 <= lo <= hi,
    ensures
        lo <= mid_of(lo, hi) <= hi,
{
    vstd::arithmetic::div_mod::lemma_div_is_ordered(2 * lo, lo + hi, 2);
    vstd::arithmetic::div_mod::lemma_div_is_ordered(lo + hi, 2 * hi, 2);
    assert(2 * lo / 2 == lo) by (nonlinear_arith);
    assert(2 * hi / 2 == hi) by (nonlinear_arith);
}

/// `x` forced into `[lo, hi]`.
pub open spec fn clamp_spec(x: int, lo: i64, hi: i64) -> i64 {
    if x < lo {
        lo
    } else if x > hi {
        hi
    } else {
        x as i64
    }
}

fn clamp(x: i64, lo: i64, hi: i64) -> (r: i64)
    requires
        lo <= hi,
    ensures
        r == clamp_spec(x as int, lo, hi),
{
    if x < lo {
        lo
    } else if x > hi {
        hi
    } else {
        x
    }
}

/// Candidates must keep this distance from every sample already taken.
pub const MIN_STEP_MILLI: i64 = 800;

/// A candidate lies too close to a sample already taken.
pub open spec fn too_close(s: Seq<Sample>, c: i64) -> bool {
    exists|i: int| 0 <= i < s.len() && dist(s[i].crf_milli, c) < MIN_STEP_MILLI
}

fn too_close_exec(s: &Vec<Sample>, c: i64) -> (r: bool)
    requires
        forall|i: int| 0 <= i < s@.len() ==> sample_bounded(#[trigger] s@[i]),
        0 <= c <= MAX_CRF_MILLI,
    ensures
        r == too_close(s@, c),
{
    let mut i: usize = 0;
    while i < s.len()
        invariant
            i <= s@.len(),
            forall|k: int| 0 <= k < s@.len() ==> sample_bounded(#[trigger] s@[k]),
            0 <= c <= MAX_CRF_MILLI,
            forall|k: int| 0 <= k < i ==> dist(s@[k].crf_milli, c) >= MIN_STEP_MILLI,
        decreases s@.len() - i,
    {
        let d = if s[i].crf_milli >= c {
            s[i].crf_milli - c
        } else {
            c - s[i].crf_milli
        };
        if d < MIN_STEP_MILLI {
            return true;
        }
        i += 1;
    }
    false
}

/// With exactly one bracketing pair whose scores lie closer together
/// than a tenth of a point, interpolation answers the midpoint of the two
/// parameters.
pub proof fn lemma_flat_bracket_midpoint(s1: Sample, s2: Sample, target: i64)
    requires
        s1.crf_milli <= s2.crf_milli,
        (if s1.score_milli < s2.score_milli {
            s1.score_milli
        } else {
            s2.score_milli
        }) <= target <= (if s1.score_milli < s2.score_milli {
            s2.score_milli
        } else {
            s1.score_milli
        }),
        -FLAT_PAIR_MILLI < s2.score_milli - s1.score_milli < FLAT_PAIR_MILLI,
    ensures
        interp_spec(seq![s1, s2], target) == (s1.crf_milli + s2.crf_milli) / 2,
{
    let s = seq![s1, s2];
    assert(brackets_at(s, target, 0));
    assert(interp_scan(s, target, 0) == pair_result(s, target, 0));
}

/// Iteration budget of one search.
pub const MAX_ITERATIONS: u32 = 10;

/// A midpoint probe this close to the target is accepted on the spot.
pub const ACCEPT_MILLI: i64 = 500;

/// A best sample within this band above the target stops the search.
pub const STOP_BAND_MILLI: i64 = 300;

/// A below-target sample within this distance above the best parameter
/// shows the boundary is bracketed tightly and stops the search.
pub const TIGHT_BRACKET_MILLI: i64 = 1000;

/// This many consecutive iterations without improvement stop the search.
pub const NO_IMPROVE_LIMIT: u32 = 3;

/// The best sample's score lies within the acceptance band just above
/// the target.
pub open spec fn in_band(best: Option<Sample>, target: i64) -> bool {
    match best {
        Some(b) => target <= b.score_milli <= target + STOP_BAND_MILLI,
        None => false,
    }
}

/// A below-target sample sits within `TIGHT_BRACKET_MILLI` above the
/// best parameter.
pub open spec fn tightly_bracketed(best: Option<Sample>, samples: Seq<Sample>, target: i64) -> bool {
    match best {
        Some(b) => exists|i: int|
            0 <= i < samples.len() && b.crf_milli <= #[trigger] samples[i].crf_milli <= b.crf_milli
                + TIGHT_BRACKET_MILLI && samples[i].score_milli < target,
        None => false,
    }
}

/// Where the search stands.
#[derive(Clone, Copy, Debug, PartialEq, Eq, Structural)]
pub enum SearchPhase {
    /// The first probe, at the midpoint of the full range.
    Midpoint,
    /// Range narrowing guided by interpolation.
    Bisect,
    /// Free refinement over the full range with the leftover budget.
    Refine,
    /// No further probes; the result may be read.
    Finished,
}

/// What the driver is to do next.
#[derive(Clone, Copy, Debug, PartialEq, Eq, Structural)]
pub enum SearchStep {
    /// Compress a sample at this parameter, score it, and report back.
    Measure(i64),
    /// The search is over; read the result.
    Conclude,
}

/// The CRF search state: the engine proper. The driver alternately asks
/// `next_step` and reports measurements with `record`; every decision is
/// a pure function of this state.
pub struct CrfSearch {
    /// Target score in thousandths.
    pub target: i64,
    /// Lowest parameter of the encoder family.
    pub min_crf: i64,
    /// Highest parameter of the encoder family.
    pub max_crf: i64,
    /// Lower end of the active range.
    pub cur_min: i64,
    /// Upper end of the active range.
    pub cur_max: i64,
    /// Measurements taken so far.
    pub samples: Vec<Sample>,
    /// Best sample meeting the target, highest parameter preferred.
    pub best: Option<Sample>,
    /// Consecutive refinement iterations without improvement.
    pub no_improvement: u32,
    /// Probes issued in the midpoint and narrowing phases.
    pub iteration: u32,
    /// Refinement probes allowed.
    pub refine_budget: u32,
    /// Refinement probes issued.
    pub refine_used: u32,
    /// Where the search stands.
    pub phase: SearchPhase,
    /// Parameter of the probe issued and not yet reported.
    pub pending: Option<i64>,
    /// Sample accepted on the spot by the midpoint probe.
    pub accepted: Option<Sample>,
}

impl CrfSearch {
    /// The state invariant.
    pub open spec fn wf(self) -> bool {
        &&& 0 < self.min_crf < self.max_crf <= MAX_CRF_MILLI
        &&& self.min_crf <= self.cur_min <= self.cur_max <= self.max_crf
        &&& 0 <= self.target <= MAX_SCORE_MILLI
        &&& forall|i: int|
            0 <= i < self.samples@.len() ==> sample_bounded(#[trigger] self.samples@[i])
                && self.min_crf <= self.samples@[i].crf_milli <= self.max_crf
        &&& match self.best {
            Some(b) => sample_bounded(b) && self.min_crf <= b.crf_milli <= self.max_crf
                && b.score_milli >= self.target,
            None => true,
        }
        &&& match self.pending {
            Some(c) => self.min_crf <= c <= self.max_crf && ((self.phase == SearchPhase::Midpoint
                || self.phase == SearchPhase::Bisect) ==> self.cur_min <= c <= self.cur_max),
            None => true,
        }
        &&& (self.phase == SearchPhase::Midpoint ==> self.cur_min == self.min_crf && self.cur_max
            == self.max_crf)
        &&& match self.accepted {
            Some(a) => sample_bounded(a) && self.min_crf <= a.crf_milli <= self.max_crf
                && self.phase == SearchPhase::Finished,
            None => true,
        }
        &&& self.refine_used <= self.refine_budget <= MAX_ITERATIONS
        &&& 1 <= self.iteration <= MAX_ITERATIONS
    }

    /// A best sample lies within the acceptance band just above the
    /// target.
    pub open spec fn stop_in_band(self) -> bool {
        in_band(self.best, self.target)
    }

    /// A below-target sample sits within `TIGHT_BRACKET_MILLI` above the
    /// best parameter: the boundary is already bracketed tightly.
    pub open spec fn stop_bracketed(self) -> bool {
        tightly_bracketed(self.best, self.samples@, self.target)
    }

    /// State on entering refinement: the leftover budget is what the
    /// iteration cap leaves after the samples already taken.
    pub open spec fn enter_refine(self) -> CrfSearch {
        CrfSearch {
            phase: SearchPhase::Refine,
            refine_budget: if self.samples@.len() < MAX_ITERATIONS {
                (MAX_ITERATIONS - self.samples@.len()) as u32
            } else {
                0
            },
            refine_used: 0,
            ..self
        }
    }

    /// The candidate the narrowing phase would probe: the interpolation
    /// prediction clamped into the active range, or the midpoint of the
    /// active range when the prediction lands too close to a sample
    /// already taken.
    pub open spec fn bisect_candidate(self) -> i64 {
        let raw = if self.samples@.len() >= 2 {
            clamp_spec(interp_spec(sort_spec(self.samples@), self.target), self.cur_min,
                self.cur_max)
        } else {
            clamp_spec(mid_of(self.cur_min, self.cur_max), self.cur_min, self.cur_max)
        };
        if too_close(self.samples@, raw) {
            clamp_spec(mid_of(self.cur_min, self.cur_max), self.cur_min, self.cur_max)
        } else {
            raw
        }
    }

    /// The narrowing phase has no candidate left to probe.
    pub open spec fn bisect_exhausted(self) -> bool {
        too_close(self.samples@, self.bisect_candidate())
    }

    /// The candidate refinement would probe: the interpolation prediction
    /// clamped into the full range, nudged up one point when it lands too
    /// close to a sample already taken.
    pub open spec fn refine_candidate(self) -> i64 {
        let raw = clamp_spec(interp_spec(sort_spec(self.samples@), self.target), self.min_crf,
            self.max_crf);
        if too_close(self.samples@, raw) {
            clamp_spec(raw + TIGHT_BRACKET_MILLI, self.min_crf, self.max_crf)
        } else {
            raw
        }
    }

    /// Refinement has no candidate left to probe.
    pub open spec fn refine_exhausted(self) -> bool {
        too_close(self.samples@, self.refine_candidate())
    }

    /// The refinement move from state `s`.
    pub open spec fn refine_step_spec(s: CrfSearch) -> (CrfSearch, SearchStep) {
        if s.refine_used >= s.refine_budget || s.samples@.len() < 2 || s.no_improvement
            >= NO_IMPROVE_LIMIT || s.refine_exhausted() {
            (CrfSearch { phase: SearchPhase::Finished, ..s }, SearchStep::Conclude)
        } else {
            let c = s.refine_candidate();
            (
                CrfSearch {
                    refine_used: (s.refine_used + 1) as u32,
                    pending: Some(c),
                    ..s
                },
                SearchStep::Measure(c),
            )
        }
    }

    /// The narrowing move from state `s`.
    pub open spec fn bisect_step_spec(s: CrfSearch) -> (CrfSearch, SearchStep) {
        if s.iteration >= MAX_ITERATIONS || s.cur_max - s.cur_min <= TIGHT_BRACKET_MILLI {
            Self::refine_step_spec(s.enter_refine())
        } else if s.bisect_exhausted() {
            Self::refine_step_spec(s.enter_refine())
        } else {
            let c = s.bisect_candidate();
            (
                CrfSearch {
                    iteration: (s.iteration + 1) as u32,
                    pending: Some(c),
                    ..s
                },
                SearchStep::Measure(c),
            )
        }
    }

    /// The move `next_step` makes from state `s`.
    pub open spec fn next_step_spec(s: CrfSearch) -> (CrfSearch, SearchStep) {
        match s.phase {
            SearchPhase::Midpoint => {
                let c = clamp_spec(mid_of(s.min_crf, s.max_crf), s.min_crf, s.max_crf);
                (CrfSearch { pending: Some(c), ..s }, SearchStep::Measure(c))
            },
            SearchPhase::Bisect => Self::bisect_step_spec(s),
            SearchPhase::Refine => Self::refine_step_spec(s),
            SearchPhase::Finished => (s, SearchStep::Conclude),
        }
    }

    /// Start a search toward `target` for the encoder family named in
    /// `encoder`.
    pub fn new(encoder: &str, target: i64) -> (r: CrfSearch)
        requires
            0 <= target <= MAX_SCORE_MILLI,
        ensures
            r.wf(),
            r.phase == SearchPhase::Midpoint,
            (r.min_crf, r.max_crf) == crf_range_spec(encoder@),
            r.cur_min == r.min_crf,
            r.cur_max == r.max_crf,
            r.samples@.len() == 0,
            r.best is None,
            r.accepted is None,
            r.pending is None,
            r.target == target,
            r.iteration == 1,
    {
        let (lo, hi) = get_crf_range(encoder);
        CrfSearch {
            target,
            min_crf: lo,
            max_crf: hi,
            cur_min: lo,
            cur_max: hi,
            samples: Vec::new(),
            best: None,
            no_improvement: 0,
            iteration: 1,
            refine_budget: MAX_ITERATIONS,
            refine_used: 0,
            phase: SearchPhase::Midpoint,
            pending: None,
            accepted: None,
        }
    }

    /// Decide the next move: a parameter to probe, or the end of the
    /// search. A probe never leaves the encoder family's range.
    pub fn next_step(&mut self) -> (r: SearchStep)
        requires
            old(self).wf(),
            old(self).pending is None,
        ensures
            final(self).wf(),
            (*final(self), r) == Self::next_step_spec(*old(self)),
            match r {
                SearchStep::Measure(c) => old(self).min_crf <= c <= old(self).max_crf
                    && final(self).pending == Some(c),
                SearchStep::Conclude => final(self).phase == SearchPhase::Finished
                    && final(self).pending is None,
            },
    {
        proof {
            lemma_mid_bounds(self.min_crf, self.max_crf);
            lemma_mid_bounds(self.cur_min, self.cur_max);
        }
        match self.phase {
            SearchPhase::Midpoint => {
                let c = clamp(
                    {
                        let m = (self.min_crf + self.max_crf) / 2;
                        m
                    },
                    self.min_crf,
                    self.max_crf,
                );
                self.pending = Some(c);
                SearchStep::Measure(c)
            },
            SearchPhase::Bisect => {
                if self.iteration >= MAX_ITERATIONS || self.cur_max - self.cur_min
                    <= TIGHT_BRACKET_MILLI {
                    self.do_enter_refine();
                    self.refine_move()
                } else {
                    let c = self.bisect_candidate_exec();
                    if too_close_exec(&self.samples, c) {
                        self.do_enter_refine();
                        self.refine_move()
                    } else {
                        self.iteration = self.iteration + 1;
                        self.pending = Some(c);
                        SearchStep::Measure(c)
                    }
                }
            },
            SearchPhase::Refine => self.refine_move(),
            SearchPhase::Finished => SearchStep::Conclude,
        }
    }

    fn do_enter_refine(&mut self)
        requires
            old(self).wf(),
            old(self).accepted is None,
        ensures
            *final(self) == old(self).enter_refine(),
            final(self).wf(),
            final(self).phase == SearchPhase::Refine,
            final(self).refine_used == 0,
            final(self).refine_budget == if old(self).samples@.len() < MAX_ITERATIONS {
                (MAX_ITERATIONS - old(self).samples@.len()) as u32
            } else {
                0u32
            },
            final(self).samples == old(self).samples,
            final(self).best == old(self).best,
            final(self).accepted == old(self).accepted,
            final(self).pending == old(self).pending,
            final(self).cur_min == old(self).cur_min,
            final(self).cur_max == old(self).cur_max,
            final(self).min_crf == old(self).min_crf,
            final(self).max_crf == old(self).max_crf,
            final(self).target == old(self).target,
            final(self).iteration == old(self).iteration,
            final(self).no_improvement == old(self).no_improvement,
    {
        self.phase = SearchPhase::Refine;
        self.refine_budget = if self.samples.len() < MAX_ITERATIONS as usize {
            MAX_ITERATIONS - self.samples.len() as u32
        } else {
            0
        };
        self.refine_used = 0;
    }

    fn bisect_candidate_exec(&self) -> (c: i64)
        requires
            self.wf(),
        ensures
            c == self.bisect_candidate(),
            self.cur_min <= c <= self.cur_max,
    {
        proof {
            lemma_mid_bounds(self.cur_min, self.cur_max);
        }
        let raw = if self.samples.len() >= 2 {
            clamp(interpolate_crf(&self.samples, self.target), self.cur_min, self.cur_max)
        } else {
            clamp((self.cur_min + self.cur_max) / 2, self.cur_min, self.cur_max)
        };
        if too_close_exec(&self.samples, raw) {
            clamp((self.cur_min + self.cur_max) / 2, self.cur_min, self.cur_max)
        } else {
            raw
        }
    }

    fn refine_move(&mut self) -> (r: SearchStep)
        requires
            old(self).wf(),
            old(self).phase == SearchPhase::Refine,
            old(self).pending is None,
        ensures
            final(self).wf(),
            (*final(self), r) == Self::refine_step_spec(*old(self)),
            match r {
                SearchStep::Measure(c) => old(self).min_crf <= c <= old(self).max_crf
                    && final(self).pending == Some(c),
                SearchStep::Conclude => final(self).phase == SearchPhase::Finished
                    && final(self).pending is None,
            },
    {
        if self.refine_used >= self.refine_budget || self.samples.len() < 2
            || self.no_improvement >= NO_IMPROVE_LIMIT {
            self.phase = SearchPhase::Finished;
            return SearchStep::Conclude;
        }
        let raw = clamp(interpolate_crf(&self.samples, self.target), self.min_crf, self.max_crf);
        let c = if too_close_exec(&self.samples, raw) {
            clamp(raw + TIGHT_BRACKET_MILLI, self.min_crf, self.max_crf)
        } else {
            raw
        };
        if too_close_exec(&self.samples, c) {
            self.phase = SearchPhase::Finished;
            return SearchStep::Conclude;
        }
        self.refine_used = self.refine_used + 1;
        self.pending = Some(c);
        SearchStep::Measure(c)
    }

    /// Report the outcome of the probe issued last: its score, or `None`
    /// when no sample or no score could be obtained.
    ///
    /// The sample is recorded; the best known sample is the
    /// highest-parameter one meeting the target; the midpoint probe is
    /// accepted on the spot when it lands within `ACCEPT_MILLI` of the
    /// target, and otherwise narrows the active range toward the side
    /// the target lies on; a tightly bracketed boundary or a best sample
    /// just above the target ends the search.
    #[verifier::rlimit(100)]
    #[verifier::spinoff_prover]
    pub fn record(&mut self, score: Option<i64>)
        requires
            old(self).wf(),
            old(self).pending is Some,
            old(self).phase != SearchPhase::Finished,
            match score {
                Some(v) => 0 <= v <= MAX_SCORE_MILLI,
                None => true,
            },
        ensures
            final(self).wf(),
            final(self).pending is None,
            final(self).min_crf == old(self).min_crf,
            final(self).max_crf == old(self).max_crf,
            final(self).target == old(self).target,
            final(self).iteration == old(self).iteration,
            score is None ==> {
                &&& final(self).samples@ =~= old(self).samples@
                &&& final(self).best == old(self).best
                &&& final(self).accepted == old(self).accepted
                &&& final(self).cur_min == old(self).cur_min
                &&& final(self).cur_max == old(self).cur_max
            },
            score is None && old(self).phase == SearchPhase::Midpoint ==> {
                &&& final(self).phase == SearchPhase::Refine
                &&& final(self).refine_used == 0
                &&& final(self).refine_budget == if old(self).samples@.len() < MAX_ITERATIONS {
                    (MAX_ITERATIONS - old(self).samples@.len()) as u32
                } else {
                    0u32
                }
                &&& final(self).no_improvement == old(self).no_improvement
            },
            score is None && old(self).phase == SearchPhase::Bisect ==> final(self).phase
                == SearchPhase::Bisect && final(self).no_improvement == old(self).no_improvement,
            score is None && old(self).phase == SearchPhase::Refine ==> final(self).phase
                == SearchPhase::Refine && final(self).no_improvement == if old(self).no_improvement < NO_IMPROVE_LIMIT {
                (old(self).no_improvement + 1) as u32
            } else {
                old(self).no_improvement
            },
            score is Some ==> final(self).samples@ =~= old(self).samples@.push(
                Sample { crf_milli: old(self).pending->0, score_milli: score->0 },
            ),
            score is Some && old(self).phase == SearchPhase::Midpoint ==> {
                let c = old(self).pending->0;
                let t = old(self).target;
                let v = score->0;
                let smp = Sample { crf_milli: c, score_milli: v };
                &&& final(self).best == if v >= t {
                    Some(smp)
                } else {
                    old(self).best
                }
                &&& (dist(v, t) <= ACCEPT_MILLI ==> final(self).phase == SearchPhase::Finished
                    && final(self).accepted == Some(smp))
                &&& (dist(v, t) > ACCEPT_MILLI ==> {
                    &&& final(self).accepted is None
                    &&& final(self).phase == SearchPhase::Bisect
                    &&& (v > t ==> final(self).cur_min == c && final(self).cur_max == old(self).cur_max)
                    &&& (v <= t ==> final(self).cur_max == c && final(self).cur_min == old(self).cur_min)
                })
            },
            score is Some && old(self).phase != SearchPhase::Midpoint ==> {
                let c = old(self).pending->0;
                let t = old(self).target;
                let v = score->0;
                let smp = Sample { crf_milli: c, score_milli: v };
                let improved = v >= t && match old(self).best {
                    Some(b) => c > b.crf_milli,
                    None => true,
                };
                &&& final(self).best == if improved {
                    Some(smp)
                } else {
                    old(self).best
                }
                &&& final(self).accepted == old(self).accepted
            },
            score is Some && old(self).phase == SearchPhase::Bisect ==> {
                let c = old(self).pending->0;
                let t = old(self).target;
                let v = score->0;
                let early = final(self).stop_in_band() || final(self).stop_bracketed();
                &&& final(self).no_improvement == old(self).no_improvement
                &&& (early ==> final(self).phase == SearchPhase::Finished && final(self).cur_min
                    == old(self).cur_min && final(self).cur_max == old(self).cur_max)
                &&& (!early ==> {
                    &&& final(self).phase == SearchPhase::Bisect
                    &&& (v > t ==> final(self).cur_min == c && final(self).cur_max == old(self).cur_max)
                    &&& (v <= t ==> final(self).cur_max == c && final(self).cur_min == old(self).cur_min)
                })
            },
            score is Some && old(self).phase == SearchPhase::Refine ==> {
                let c = old(self).pending->0;
                let t = old(self).target;
                let v = score->0;
                let improved = v >= t && match old(self).best {
                    Some(b) => c > b.crf_milli,
                    None => true,
                };
                let early = final(self).stop_in_band() || final(self).stop_bracketed();
                &&& final(self).cur_min == old(self).cur_min
                &&& final(self).cur_max == old(self).cur_max
                &&& final(self).no_improvement == if improved {
                    0u32
                } else if old(self).no_improvement < NO_IMPROVE_LIMIT {
                    (old(self).no_improvement + 1) as u32
                } else {
                    old(self).no_improvement
                }
                &&& (early ==> final(self).phase == SearchPhase::Finished)
                &&& (!early ==> final(self).phase == SearchPhase::Refine)
            },
    {
        let c = self.pending.unwrap();
        self.pending = None;
        match score {
            None => {
                match self.phase {
                    SearchPhase::Midpoint => {
                        self.do_enter_refine();
                    },
                    SearchPhase::Refine => {
                        self.no_improvement = if self.no_improvement < NO_IMPROVE_LIMIT {
                            self.no_improvement + 1
                        } else {
                            self.no_improvement
                        };
                    },
                    _ => {},
                }
            },
            Some(v) => {
                let smp = Sample { crf_milli: c, score_milli: v };
                let improved = v >= self.target && match self.best {
                    Some(b) => c > b.crf_milli,
                    None => true,
                };
                self.samples.push(smp);
                match self.phase {
                    SearchPhase::Midpoint => {
                        if v >= self.target {
                            self.best = Some(smp);
                        }
                        let d = if v >= self.target {
                            v - self.target
                        } else {
                            self.target - v
                        };
                        if d <= ACCEPT_MILLI {
                            self.accepted = Some(smp);
                            self.phase = SearchPhase::Finished;
                        } else if v > self.target {
                            self.cur_min = c;
                            self.phase = SearchPhase::Bisect;
                        } else {
                            self.cur_max = c;
                            self.phase = SearchPhase::Bisect;
                        }
                    },
                    SearchPhase::Bisect => {
                        if improved {
                            self.best = Some(smp);
                        }
                        if self.early_stop() {
                            self.phase = SearchPhase::Finished;
                        } else if v > self.target {
                            self.cur_min = c;
                        } else {
                            self.cur_max = c;
                        }
                    },
                    SearchPhase::Refine => {
                        if improved {
                            self.best = Some(smp);
                            self.no_improvement = 0;
                        } else {
                            self.no_improvement = if self.no_improvement < NO_IMPROVE_LIMIT {
                                self.no_improvement + 1
                            } else {
                                self.no_improvement
                            };
                        }
                        if self.early_stop() {
                            self.phase = SearchPhase::Finished;
                        }
                    },
                    SearchPhase::Finished => {},
                }
            },
        }
    }

    fn early_stop(&self) -> (r: bool)
        requires
            self.wf(),
        ensures
            r == (self.stop_in_band() || self.stop_bracketed()),
    {
        match self.best {
            None => false,
            Some(b) => {
                if self.target <= b.score_milli && b.score_milli <= self.target
                    + STOP_BAND_MILLI {
                    return true;
                }
                let mut i: usize = 0;
                while i < self.samples.len()
                    invariant
                        self.wf(),
                        self.best == Some(b),
                        i <= self.samples@.len(),
                        forall|k: int|
                            0 <= k < i ==> !(b.crf_milli <= #[trigger] self.samples@[k].crf_milli
                                <= b.crf_milli + TIGHT_BRACKET_MILLI && self.samples@[k].score_milli
                                < self.target),
                    decreases self.samples@.len() - i,
                {
                    let s = self.samples[i];
                    if b.crf_milli <= s.crf_milli && s.crf_milli <= b.crf_milli
                        + TIGHT_BRACKET_MILLI && s.score_milli < self.target {
                        return true;
                    }
                    i += 1;
                }
                false
            },
        }
    }

    /// The search's answer, once it has concluded: the sample accepted on
    /// the spot if there was one; otherwise, among the samples meeting
    /// the target, the earliest whose score is closest to it; if none
    /// meets the target, the earliest closest overall; and the midpoint
    /// of the range with a zero score if nothing was measured. The
    /// parameter never leaves the encoder family's range.
    pub fn result(&self) -> (r: Sample)
        requires
            self.wf(),
            self.phase == SearchPhase::Finished,
        ensures
            self.min_crf <= r.crf_milli <= self.max_crf,
            match self.accepted {
                Some(a) => r == a,
                None => {
                    let s = self.samples@;
                    let t = self.target;
                    if s.len() == 0 {
                        r == (Sample { crf_milli: clamp_spec(mid_of(self.min_crf, self.max_crf), self.min_crf, self.max_crf), score_milli: 0i64 })
                    } else if exists|i: int| 0 <= i < s.len() && s[i].score_milli >= t {
                        exists|i: int|
                            {
                                &&& 0 <= i < s.len()
                                &&& s[i] == r
                                &&& r.score_milli >= t
                                &&& forall|j: int|
                                    0 <= j < s.len() && s[j].score_milli >= t ==> dist(
                                        #[trigger] s[j].score_milli,
                                        t,
                                    ) >= dist(r.score_milli, t)
                                &&& forall|j: int|
                                    0 <= j < i && s[j].score_milli >= t ==> dist(
                                        #[trigger] s[j].score_milli,
                                        t,
                                    ) > dist(r.score_milli, t)
                            }
                    } else {
                        exists|i: int|
                            {
                                &&& 0 <= i < s.len()
                                &&& s[i] == r
                                &&& forall|j: int|
                                    0 <= j < s.len() ==> dist(#[trigger] s[j].score_milli, t)
                                        >= dist(r.score_milli, t)
                                &&& forall|j: int|
                                    0 <= j < i ==> dist(#[trigger] s[j].score_milli, t) > dist(
                                        r.score_milli,
                                        t,
                                    )
                            }
                    }
                },
            },
    {
        if let Some(a) = self.accepted {
            return a;
        }
        proof {
            lemma_mid_bounds(self.min_crf, self.max_crf);
        }
        if self.samples.len() == 0 {
            return Sample {
                crf_milli: clamp((self.min_crf + self.max_crf) / 2, self.min_crf, self.max_crf),
                score_milli: 0,
            };
        }
        let t = self.target;
        let mut above: Option<usize> = None;
        let mut i: usize = 0;
        while i < self.samples.len()
            invariant
                self.wf(),
                self.accepted is None,
                i <= self.samples@.len(),
                match above {
                    Some(k) => {
                        &&& 0 <= k < i
                        &&& self.samples@[k as int].score_milli >= t
                        &&& forall|j: int|
                            0 <= j < i && self.samples@[j].score_milli >= t ==> dist(
                                #[trigger] self.samples@[j].score_milli,
                                t,
                            ) >= dist(self.samples@[k as int].score_milli, t)
                        &&& forall|j: int|
                            0 <= j < k && self.samples@[j].score_milli >= t ==> dist(
                                #[trigger] self.samples@[j].score_milli,
                                t,
                            ) > dist(self.samples@[k as int].score_milli, t)
                    },
                    None => forall|j: int| 0 <= j < i ==> #[trigger] self.samples@[j].score_milli
                        < t,
                },
                t == self.target,
            decreases self.samples@.len() - i,
        {
            let s = self.samples[i];
            if s.score_milli >= t {
                let d = s.score_milli - t;
                match above {
                    None => {
                        above = Some(i);
                    },
                    Some(k) => {
                        let bk = self.samples[k];
                        let dk = if bk.score_milli >= t {
                            bk.score_milli - t
                        } else {
                            t - bk.score_milli
                        };
                        if d < dk {
                            above = Some(i);
                        }
                    },
                }
            }
            i += 1;
        }
        if let Some(k) = above {
            return self.samples[k];
        }
        let mut closest: usize = 0;
        let mut j: usize = 1;
        while j < self.samples.len()
            invariant
                self.wf(),
                self.samples@.len() > 0,
                closest < j <= self.samples@.len(),
                forall|q: int|
                    0 <= q < j ==> dist(#[trigger] self.samples@[q].score_milli, t) >= dist(
                        self.samples@[closest as int].score_milli,
                        t,
                    ),
                forall|q: int|
                    0 <= q < closest ==> dist(#[trigger] self.samples@[q].score_milli, t) > dist(
                        self.samples@[closest as int].score_milli,
                        t,
                    ),
                t == self.target,
            decreases self.samples@.len() - j,
        {
            let s = self.samples[j];
            let d = if s.score_milli >= t {
                s.score_milli - t
            } else {
                t - s.score_milli
            };
            let bc = self.samples[closest];
            let dc = if bc.score_milli >= t {
                bc.score_milli - t
            } else {
                t - bc.score_milli
            };
            if d < dc {
                closest = j;
            }
            j += 1;
        }
        self.samples[closest]
    }
}

} // verus!
