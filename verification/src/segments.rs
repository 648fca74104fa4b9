//! Segment Planner: places short sample windows inside a video for quality
//! measurement, spreading them away from the start and end and adding a
//! seed-derived jitter of up to five seconds either way.
//!
//! All times are whole milliseconds. The jitter seed comes from the caller
//! (a clock reading in the application); the plan is a pure function of
//! duration, configuration and seed.

use vstd::prelude::*;
use vstd::arithmetic::div_mod::{
    lemma_mul_mod_noop_left, lemma_add_mod_noop, lemma_div_is_ordered,
};
use vstd::arithmetic::mul::lemma_mul_inequality;

verus! {

/// A planned sample window inside a video, in milliseconds.
pub struct Segment {
    /// Offset of the window from the start of the video.
    pub start_ms: u64,
    /// Length of the window.
    pub len_ms: u64,
}

/// How sample windows are to be sized and counted.
pub struct SampleWindowConfig {
    /// Derive count and length from the duration instead of taking them
    /// from the two fields below.
    pub auto_size: bool,
    /// Requested number of windows (ignored under `auto_size`).
    pub count: u32,
    /// Requested window length in milliseconds (ignored under `auto_size`).
    pub len_ms: u64,
}

/// Videos shorter than this are sampled as one whole piece.
pub const SHORT_VIDEO_MS: u64 = 20000;

/// Window length used under automatic sizing.
pub const AUTO_WINDOW_MS: u64 = 20000;

/// Under automatic sizing, one window is planned per this much video.
pub const AUTO_SPAN_MS: u64 = 720000;

/// Longest duration the planner accepts, so that its arithmetic fits in
/// 64 bits.
pub const MAX_PLAN_DURATION_MS: u64 = 4000000000;

/// Most windows the planner accepts to plan.
pub const MAX_PLAN_COUNT: u32 = 1000000;

/// Number of windows planned for a video of `duration_ms` (which is at
/// least `SHORT_VIDEO_MS`).
pub open spec fn planned_count(duration_ms: u64, cfg: SampleWindowConfig) -> nat {
    if cfg.auto_size {
        let c = ((duration_ms + AUTO_SPAN_MS - 1) as nat) / (AUTO_SPAN_MS as nat);
        if c < 1 {
            1
        } else {
            c
        }
    } else {
        if cfg.count < 1 {
            1
        } else {
            cfg.count as nat
        }
    }
}

/// Length of each window planned for a video of `duration_ms` (which is
/// at least `SHORT_VIDEO_MS`).
pub open spec fn planned_len(duration_ms: u64, cfg: SampleWindowConfig) -> nat {
    if cfg.auto_size {
        AUTO_WINDOW_MS as nat
    } else {
        if cfg.len_ms > duration_ms {
            duration_ms as nat
        } else if cfg.len_ms < 1000 {
            1000
        } else {
            cfg.len_ms as nat
        }
    }
}

/// Jitter value in hundredths drawn for window `i` from the seed.
pub open spec fn jitter(seed: u64, i: nat) -> nat {
    (seed as nat + i * 12345) % 100
}

/// Start of window `i`: a base position at `duration * (i+1) / (count+2)`,
/// shifted by the jitter, rounded to a whole second, and clamped so the
/// window stays inside the video.
pub open spec fn planned_start(duration_ms: u64, cfg: SampleWindowConfig, seed: u64, i: nat) -> int {
    let count = planned_count(duration_ms, cfg) as int;
    let len = planned_len(duration_ms, cfg) as int;
    let base = duration_ms * (i + 1) / (count + 2);
    let off = jitter(seed, i) * 100 - 5000;
    let pos = if base + off < 0 {
        0
    } else {
        base + off
    };
    let rounded = ((pos + 500) / 1000) * 1000;
    if rounded + len > duration_ms {
        duration_ms - len
    } else {
        rounded
    }
}

/// The two reduced residues agree with the full jitter formula.
proof fn lemma_jitter_mod(seed: u64, i: nat)
    ensures
        jitter(seed, i) == ((seed % 100) as nat + (i % 100) * 45 % 100) % 100,
{
    let s = seed as int;
    let i_ = i as int;
    lemma_mul_mod_noop_left(i_, 12345, 100);
    assert(i_ * 12345 % 100 == (i_ % 100) * 12345 % 100);
    lemma_mul_mod_noop_left(12345, i_ % 100, 100);
    assert((i_ % 100) * 12345 == 12345 * (i_ % 100)) by (nonlinear_arith);
    assert(45 * (i_ % 100) % 100 == (i_ % 100) * 45 % 100) by (nonlinear_arith);
    assert(i_ * 12345 % 100 == (i_ % 100) * 45 % 100);
    lemma_add_mod_noop(s, i_ * 12345, 100);
}

/// Plan the sample windows for a video.
///
/// A video shorter than `SHORT_VIDEO_MS` yields exactly one window
/// covering it whole. Otherwise `planned_count` windows of length
/// `planned_len` are placed at `planned_start` positions. Every window
/// lies entirely inside the video.
pub fn plan_segments(duration_ms: u64, cfg: &SampleWindowConfig, seed: u64) -> (r: Vec<Segment>)
    requires
        duration_ms <= MAX_PLAN_DURATION_MS,
        cfg.count <= MAX_PLAN_COUNT,
    ensures
        r@.len() >= 1,
        duration_ms < SHORT_VIDEO_MS ==> r@.len() == 1 && r@[0].start_ms == 0 && r@[0].len_ms
            == duration_ms,
        duration_ms >= SHORT_VIDEO_MS ==> r@.len() == planned_count(duration_ms, *cfg) && forall|
            i: int,
        |
            0 <= i < r@.len() ==> r@[i].len_ms == planned_len(duration_ms, *cfg) && r@[i].start_ms
                == planned_start(duration_ms, *cfg, seed, i as nat),
        forall|i: int| 0 <= i < r@.len() ==> r@[i].start_ms + r@[i].len_ms <= duration_ms,
{
    if duration_ms < SHORT_VIDEO_MS {
        let mut r: Vec<Segment> = Vec::new();
        r.push(Segment { start_ms: 0, len_ms: duration_ms });
        return r;
    }
    let count: u64 = if cfg.auto_size {
        let c = (duration_ms + (AUTO_SPAN_MS - 1)) / AUTO_SPAN_MS;
        if c < 1 {
            1
        } else {
            c
        }
    } else {
        if cfg.count < 1 {
            1
        } else {
            cfg.count as u64
        }
    };
    let len: u64 = if cfg.auto_size {
        AUTO_WINDOW_MS
    } else {
        if cfg.len_ms > duration_ms {
            duration_ms
        } else if cfg.len_ms < 1000 {
            1000
        } else {
            cfg.len_ms
        }
    };
    proof {
        assert(count == planned_count(duration_ms, *cfg));
        assert(len == planned_len(duration_ms, *cfg));
        assert(len <= duration_ms);
        assert(count <= 6000 || !cfg.auto_size) by {
            if cfg.auto_size {
                lemma_div_is_ordered(
                    duration_ms + (AUTO_SPAN_MS - 1),
                    (MAX_PLAN_DURATION_MS + AUTO_SPAN_MS - 1) as int,
                    AUTO_SPAN_MS as int,
                );
            }
        }
        assert(count <= MAX_PLAN_COUNT);
    }
    let seed_r: u64 = seed % 100;
    let mut r: Vec<Segment> = Vec::new();
    let mut i: u64 = 0;
    while i < count
        invariant
            duration_ms <= MAX_PLAN_DURATION_MS,
            SHORT_VIDEO_MS <= duration_ms,
            1 <= count <= MAX_PLAN_COUNT,
            count == planned_count(duration_ms, *cfg),
            len == planned_len(duration_ms, *cfg),
            1000 <= len <= duration_ms,
            seed_r == seed % 100,
            i <= count,
            r@.len() == i,
            forall|j: int|
                0 <= j < i ==> r@[j].len_ms == planned_len(duration_ms, *cfg) && r@[j].start_ms
                    == planned_start(duration_ms, *cfg, seed, j as nat) && r@[j].start_ms
                    + r@[j].len_ms <= duration_ms,
        decreases count - i,
    {
        proof {
            assert(duration_ms as int * (i as int + 1) <= 4000000001000000000int) by (
            nonlinear_arith)
                requires
                    duration_ms as int <= 4000000000int,
                    0 <= i as int,
                    i as int + 1 <= 1000001int,
            {}
        }
        let base: u64 = duration_ms * (i + 1) / (count + 2);
        proof {
            assert(duration_ms * (i + 1) <= duration_ms * (count + 2)) by {
                lemma_mul_inequality(i + 1, count as int + 2, duration_ms as int);
                assert((i + 1) * duration_ms == duration_ms * (i + 1)) by (nonlinear_arith);
                assert((count as int + 2) * duration_ms == duration_ms * (count as int + 2))
                    by (nonlinear_arith);
            }
            assert(base <= duration_ms) by {
                lemma_div_is_ordered(
                    duration_ms as int * (i as int + 1),
                    duration_ms as int * (count as int + 2),
                    count as int + 2,
                );
                assert(duration_ms as int * (count as int + 2) / (count as int + 2)
                    == duration_ms) by (nonlinear_arith);
            }
        }
        let pr: u64 = (seed_r + (i % 100) * 45 % 100) % 100;
        proof {
            lemma_jitter_mod(seed, i as nat);
            assert(pr == jitter(seed, i as nat));
        }
        let off_down: u64 = 5000;
        let off_up: u64 = pr * 100;
        let pos: u64 = if base + off_up < off_down {
            0
        } else {
            base + off_up - off_down
        };
        let rounded: u64 = ((pos + 500) / 1000) * 1000;
        let start: u64 = if rounded + len > duration_ms {
            duration_ms - len
        } else {
            rounded
        };
        proof {
            let ghost off = jitter(seed, i as nat) * 100 - 5000;
            assert(pos == if base + off < 0 {
                0int
            } else {
                base + off
            });
            assert(start == planned_start(duration_ms, *cfg, seed, i as nat));
        }
        r.push(Segment { start_ms: start, len_ms: len });
        i += 1;
    }
    r
}

} // verus!
