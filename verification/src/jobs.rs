//! Compression Job State Machine: the decisions that drive one input file
//! through bypass checks, the optional parameter search, encoding with the
//! give-up heuristic, verification, publication and the quality hand-off.
//!
//! Everything here is a pure function of plain values; the application
//! performs the subprocess and filesystem work these decisions call for.

use vstd::prelude::*;
use crate::media::{Mode, JobStatus};
use crate::search::{CrfSearch, SearchStep};

verus! {

/// A bitrate-mode job whose input bitrate undercuts the configured floor
/// is bypassed: the input is kept as it is.
pub open spec fn bypass_applies(
    mode: Mode,
    threshold_kbps: u32,
    input_bitrate_milli: Option<u64>,
) -> bool {
    mode == Mode::Bitrate && threshold_kbps > 0 && match input_bitrate_milli {
        Some(b) => b < threshold_kbps * 1000,
        None => false,
    }
}

/// Decide whether the bitrate bypass applies.
pub fn should_bypass(mode: Mode, threshold_kbps: u32, input_bitrate_milli: Option<u64>) -> (r:
    bool)
    ensures
        r == bypass_applies(mode, threshold_kbps, input_bitrate_milli),
{
    mode == Mode::Bitrate && threshold_kbps > 0 && match input_bitrate_milli {
        Some(b) => b < threshold_kbps as u64 * 1000,
        None => false,
    }
}

/// The first move of a job.
#[derive(Clone, Copy, Debug, PartialEq, Eq, Structural)]
pub enum StartAction {
    /// Keep the input as it is and end as `Skipped`.
    SkipCopy,
    /// Run the parameter search before encoding.
    RunSearch,
    /// Encode right away.
    Encode,
}

/// Decide how a job starts: bypass first, then the search for
/// score-guided jobs, otherwise straight to encoding.
pub fn start_action(mode: Mode, threshold_kbps: u32, input_bitrate_milli: Option<u64>) -> (r:
    StartAction)
    ensures
        bypass_applies(mode, threshold_kbps, input_bitrate_milli) <==> r == StartAction::SkipCopy,
        !bypass_applies(mode, threshold_kbps, input_bitrate_milli) && mode == Mode::Vmaf <==> r
            == StartAction::RunSearch,
        !bypass_applies(mode, threshold_kbps, input_bitrate_milli) && mode != Mode::Vmaf <==> r
            == StartAction::Encode,
{
    if should_bypass(mode, threshold_kbps, input_bitrate_milli) {
        StartAction::SkipCopy
    } else if mode == Mode::Vmaf {
        StartAction::RunSearch
    } else {
        StartAction::Encode
    }
}

/// What the search driver does in one turn.
#[derive(Clone, Copy, Debug, PartialEq, Eq, Structural)]
pub enum SearchTick {
    /// Cancellation was requested: clean the temporary artifacts and end
    /// the job as `Cancelled`.
    Abort,
    /// Compress and score a sample at this parameter.
    Measure(i64),
    /// The search is over; read its result.
    Conclude,
}

/// One turn of the search driver. Cancellation is polled before every
/// probe: a cancelled job never issues another one.
pub fn search_tick(search: &mut CrfSearch, cancelled: bool) -> (r: SearchTick)
    requires
        old(search).wf(),
        old(search).pending is None,
    ensures
        final(search).wf(),
        cancelled ==> r == SearchTick::Abort && *final(search) == *old(search),
        !cancelled ==> r != SearchTick::Abort && (CrfSearch::next_step_spec(*old(search)).1
            == SearchStep::Conclude <==> r == SearchTick::Conclude),
        forall|c: i64|
            r == SearchTick::Measure(c) ==> old(search).min_crf <= c <= old(search).max_crf
                && final(search).pending == Some(c),
        r == SearchTick::Conclude || r == SearchTick::Abort ==> final(search).pending is None,
{
    if cancelled {
        return SearchTick::Abort;
    }
    match search.next_step() {
        SearchStep::Measure(c) => SearchTick::Measure(c),
        SearchStep::Conclude => SearchTick::Conclude,
    }
}

/// Whether an encode position lies in the early window watched by the
/// give-up heuristic: past three seconds, and before thirty seconds or a
/// fifth of the video.
pub open spec fn in_early_window(t_ms: u64, duration_ms: u64) -> bool {
    t_ms > 3000 && (t_ms < 30000 || t_ms * 5 < duration_ms)
}

/// Whether a progress tick reads an output bitrate above the configured
/// share of the input bitrate.
pub open spec fn over_threshold(
    bitrate_milli: u64,
    input_bitrate_milli: u64,
    threshold_pct: u32,
) -> bool {
    bitrate_milli * 100 > input_bitrate_milli * threshold_pct
}

/// The give-up counter after one progress tick in the early window: up
/// by one when the output bitrate is over the threshold, down by one —
/// not reset — when it dips, so single noisy samples are tolerated.
pub open spec fn auto_skip_count_spec(count: i64, over: bool) -> int {
    if over {
        if count < i64::MAX {
            count + 1
        } else {
            count as int
        }
    } else {
        if count > i64::MIN {
            count - 1
        } else {
            count as int
        }
    }
}

/// Ticks the counter must exceed before the job gives up re-encoding.
pub const AUTO_SKIP_TRIGGER: i64 = 10;

/// One progress tick of the give-up heuristic. Returns the new counter
/// and whether the job is to give up: kill the encode, drop the partial
/// output, keep the input, and end as `Skipped`.
///
/// The heuristic only moves when it is enabled, the duration and input
/// bitrate are known, and the position lies in the early window.
pub fn auto_skip_tick(
    count: i64,
    enabled: bool,
    t_ms: u64,
    duration_ms: u64,
    bitrate_milli: u64,
    input_bitrate_milli: Option<u64>,
    threshold_pct: u32,
) -> (r: (i64, bool))
    ensures
        ({
            let active = enabled && duration_ms > 0 && input_bitrate_milli is Some
                && in_early_window(t_ms, duration_ms);
            &&& (!active ==> r.0 == count && r.1 == false)
            &&& (active ==> r.0 == auto_skip_count_spec(
                count,
                over_threshold(bitrate_milli, input_bitrate_milli->0, threshold_pct),
            ) && r.1 == (r.0 > AUTO_SKIP_TRIGGER))
        }),
{
    if !enabled || duration_ms == 0 {
        return (count, false);
    }
    let in_br = match input_bitrate_milli {
        Some(b) => b,
        None => {
            return (count, false);
        },
    };
    let early = t_ms > 3000 && (t_ms < 30000 || (t_ms as u128) * 5 < duration_ms as u128);
    if !early {
        return (count, false);
    }
    proof {
        assert(in_br as int * threshold_pct as int <= u64::MAX as int * u32::MAX as int) by (
        nonlinear_arith)
            requires
                0 <= in_br as int <= u64::MAX as int,
                0 <= threshold_pct as int <= u32::MAX as int,
        {}
    }
    let over = {
        let lhs: u128 = bitrate_milli as u128 * 100;
        let rhs: u128 = in_br as u128 * threshold_pct as u128;
        lhs > rhs
    };
    let new_count: i64 = if over {
        if count < i64::MAX {
            count + 1
        } else {
            count
        }
    } else {
        if count > i64::MIN {
            count - 1
        } else {
            count
        }
    };
    (new_count, new_count > AUTO_SKIP_TRIGGER)
}

/// The counter after a run of ticks, all in the early window.
pub open spec fn auto_skip_run(count: int, overs: Seq<bool>) -> int
    decreases overs.len(),
{
    if overs.len() == 0 {
        count
    } else {
        let c = auto_skip_run(count, overs.drop_last());
        if overs.last() {
            if c < i64::MAX {
                c + 1
            } else {
                c
            }
        } else {
            if c > i64::MIN {
                c - 1
            } else {
                c
            }
        }
    }
}

/// A sustained burst triggers the give-up: from a non-negative counter,
/// any run of more than `AUTO_SKIP_TRIGGER` consecutive over-threshold
/// ticks leaves the counter above the trigger, so the last tick of the
/// run gives up.
pub proof fn lemma_sustained_burst_triggers(count: int, overs: Seq<bool>)
    requires
        0 <= count <= i64::MAX,
        overs.len() > AUTO_SKIP_TRIGGER,
        forall|i: int| 0 <= i < overs.len() ==> overs[i],
    ensures
        auto_skip_run(count, overs) > AUTO_SKIP_TRIGGER,
{
    lemma_all_over_adds(count, overs);
}

proof fn lemma_all_over_adds(count: int, overs: Seq<bool>)
    requires
        0 <= count <= i64::MAX,
        forall|i: int| 0 <= i < overs.len() ==> overs[i],
    ensures
        auto_skip_run(count, overs) == if count + overs.len() <= i64::MAX {
            count + overs.len()
        } else {
            i64::MAX as int
        },
    decreases overs.len(),
{
    if overs.len() > 0 {
        assert(overs.last());
        lemma_all_over_adds(count, overs.drop_last());
    }
}

/// Why a finished encode does not count as a success.
#[derive(Clone, Copy, Debug, PartialEq, Eq, Structural)]
pub enum VerifyError {
    /// The produced file is empty.
    EmptyFile,
    /// The decode check exited with an error.
    DecodeFailed,
}

/// Judge the produced artifact: an empty file or a failed decode check
/// is a validation failure; the temporary file is then discarded and the
/// real output left untouched.
pub fn verify_verdict(size: u64, decode_ok: bool) -> (r: Result<(), VerifyError>)
    ensures
        size == 0 <==> r == Result::<(), VerifyError>::Err(VerifyError::EmptyFile),
        size > 0 && !decode_ok <==> r == Result::<(), VerifyError>::Err(VerifyError::DecodeFailed),
        size > 0 && decode_ok <==> r is Ok,
{
    if size == 0 {
        Err(VerifyError::EmptyFile)
    } else if !decode_ok {
        Err(VerifyError::DecodeFailed)
    } else {
        Ok(())
    }
}

/// How the destination is published: the destination is removed only
/// once the new artifact is validated, then the temporary file takes its
/// place.
pub struct PublishPlan {
    /// Create the destination directory first.
    pub create_dir: bool,
    /// Remove the existing destination before the rename.
    pub remove_existing: bool,
}

/// Plan the atomic publication of a validated artifact.
pub fn publish_plan(dir_exists: bool, output_exists: bool) -> (r: PublishPlan)
    ensures
        r.create_dir == !dir_exists,
        r.remove_existing == output_exists,
{
    PublishPlan { create_dir: !dir_exists, remove_existing: output_exists }
}

/// Status of a job whose encoder exited with an error: a concurrently
/// requested cancellation reclassifies the failure.
pub fn failure_status(was_cancelled: bool) -> (r: JobStatus)
    ensures
        was_cancelled <==> r == JobStatus::Cancelled,
        !was_cancelled <==> r == JobStatus::Error,
{
    if was_cancelled {
        JobStatus::Cancelled
    } else {
        JobStatus::Error
    }
}

/// What happens after a successful publish.
pub enum FinishAction {
    /// Score-guided job: the score found during the search is attached
    /// to the refreshed metadata and the job ends `Done`.
    AttachSearchScore,
    /// Scoring is separately enabled: the job is queued for scoring and
    /// ends `Waiting for VMAF` without blocking.
    EnqueueScoring,
    /// Nothing more to do: the job ends `Done`.
    PlainDone,
}

/// Decide the quality hand-off after a successful publish.
pub fn finish_action(mode: Mode, enable_vmaf: bool) -> (r: FinishAction)
    ensures
        mode == Mode::Vmaf <==> r is AttachSearchScore,
        mode != Mode::Vmaf && enable_vmaf <==> r is EnqueueScoring,
        mode != Mode::Vmaf && !enable_vmaf <==> r is PlainDone,
{
    if mode == Mode::Vmaf {
        FinishAction::AttachSearchScore
    } else if enable_vmaf {
        FinishAction::EnqueueScoring
    } else {
        FinishAction::PlainDone
    }
}


} // verus!
