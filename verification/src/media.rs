//! The data model: per-file metadata, job lifecycle status, configuration,
//! and the notification payloads.
//!
//! Durations are milliseconds; bitrates are thousandths of a kilobit per
//! second (so a numeric bitrate in bits per second carries over
//! unchanged); speeds and scores are in thousandths.

use vstd::prelude::*;
use crate::text::{dec_str, u64_to_string};

verus! {

/// Lifecycle status of one video job.
#[derive(Clone, Copy, Debug, PartialEq, Eq, Structural)]
pub enum JobStatus {
    /// Known, not yet worked on.
    Pending,
    /// Being probed during a scan.
    Scanning,
    /// Being encoded, single pass.
    Processing,
    /// First pass of a two-pass run.
    ProcessingPass1,
    /// Second pass of a two-pass run.
    ProcessingPass2,
    /// The parameter search is running.
    SearchingCrf,
    /// The search settled on this parameter (in thousandths).
    FoundCrf(i64),
    /// Quality scoring is running.
    Evaluating,
    /// Queued for quality scoring.
    WaitingForVmaf,
    /// Finished successfully.
    Done,
    /// Failed.
    Error,
    /// Skipped without re-encoding.
    Skipped,
    /// Cancelled on request.
    Cancelled,
}

/// The parameter announced in a `FoundCrf` status, rounded to the
/// nearest whole point.
pub open spec fn rounded_crf(crf_milli: i64) -> int {
    (crf_milli + 500) / 1000
}

/// The status text shown for each state.
pub open spec fn status_label_spec(s: JobStatus) -> Seq<char> {
    match s {
        JobStatus::Pending => "Pending"@,
        JobStatus::Scanning => "Scanning"@,
        JobStatus::Processing => "Processing"@,
        JobStatus::ProcessingPass1 => "Processing (Pass 1/2)"@,
        JobStatus::ProcessingPass2 => "Processing (Pass 2/2)"@,
        JobStatus::SearchingCrf => "Searching CRF"@,
        JobStatus::FoundCrf(c) => "Found CRF "@ + dec_str(if 0 <= rounded_crf(c) {
            rounded_crf(c) as nat
        } else {
            0
        }),
        JobStatus::Evaluating => "Evaluating"@,
        JobStatus::WaitingForVmaf => "Waiting for VMAF"@,
        JobStatus::Done => "Done"@,
        JobStatus::Error => "Error"@,
        JobStatus::Skipped => "Skipped"@,
        JobStatus::Cancelled => "Cancelled"@,
    }
}

impl JobStatus {
    /// The status text, as the notification channel carries it.
    pub fn label(&self) -> (r: String)
        requires
            match *self {
                JobStatus::FoundCrf(c) => 0 <= c <= crate::search::MAX_CRF_MILLI,
                _ => true,
            },
        ensures
            r@ == status_label_spec(*self),
    {
        match self {
            JobStatus::Pending => String::from_str("Pending"),
            JobStatus::Scanning => String::from_str("Scanning"),
            JobStatus::Processing => String::from_str("Processing"),
            JobStatus::ProcessingPass1 => String::from_str("Processing (Pass 1/2)"),
            JobStatus::ProcessingPass2 => String::from_str("Processing (Pass 2/2)"),
            JobStatus::SearchingCrf => String::from_str("Searching CRF"),
            JobStatus::FoundCrf(c) => {
                proof {
                    assert(0 <= *c <= crate::search::MAX_CRF_MILLI);
                }
                let mut s = String::from_str("Found CRF ");
                let num = u64_to_string(((*c + 500) / 1000) as u64);
                s.append(num.as_str());
                s
            },
            JobStatus::Evaluating => String::from_str("Evaluating"),
            JobStatus::WaitingForVmaf => String::from_str("Waiting for VMAF"),
            JobStatus::Done => String::from_str("Done"),
            JobStatus::Error => String::from_str("Error"),
            JobStatus::Skipped => String::from_str("Skipped"),
            JobStatus::Cancelled => String::from_str("Cancelled"),
        }
    }
}

/// Descriptive snapshot of one media file, progressively filled in as a
/// job advances.
pub struct VideoInfo {
    /// File name.
    pub name: String,
    /// Full path; also the job key.
    pub path: String,
    /// Size in bytes.
    pub size: u64,
    /// Resolution as `WxH`.
    pub resolution: String,
    /// Human-readable bitrate.
    pub bitrate: String,
    /// Codec of the video stream.
    pub encoder: String,
    /// Lifecycle status.
    pub status: JobStatus,
    /// Completion, zero to one hundred.
    pub progress: u8,
    /// Duration in milliseconds.
    pub duration_ms: u64,
    /// Instantaneous speed in thousandths of real time, while encoding.
    pub speed_milli: Option<u64>,
    /// Numeric bitrate in thousandths of a kilobit per second.
    pub bitrate_milli: Option<u64>,
    /// Quality score in thousandths, once computed.
    pub vmaf_milli: Option<u64>,
    /// Device the score was computed on.
    pub vmaf_device: Option<String>,
    /// Per-segment scores in thousandths, in the order computed.
    pub vmaf_detail: Option<Vec<u64>>,
    /// Number of segments planned for scoring.
    pub vmaf_total_segments: Option<u32>,
    /// File name of the quality model used.
    pub vmaf_model: Option<String>,
}

/// No quality-score field is set.
pub open spec fn has_no_score(v: VideoInfo) -> bool {
    v.vmaf_milli is None && v.vmaf_device is None && v.vmaf_detail is None
        && v.vmaf_total_segments is None && v.vmaf_model is None
}

/// An upper bound on the video resolution.
pub struct MaxResolution {
    /// Whether the bound applies.
    pub enabled: bool,
    /// Largest width.
    pub width: u32,
    /// Largest height.
    pub height: u32,
}

/// One encoder offered by the tool, with the extra tokens its invocations
/// carry.
pub struct EncoderConfig {
    /// Display name.
    pub name: String,
    /// Identifier handed to the tool.
    pub value: String,
    /// Whether shown in the picker.
    pub visible: bool,
    /// Extra argument text, split on whitespace when assembled.
    pub custom_params: Vec<String>,
}

/// The rate-control discipline of a job.
#[derive(Clone, Copy, Debug, PartialEq, Eq, Structural)]
pub enum Mode {
    /// Remux without re-encoding.
    Copy,
    /// A target bitrate.
    Bitrate,
    /// A fixed quality parameter.
    Crf,
    /// A quality parameter found by score-guided search.
    Vmaf,
    /// Anything else: no rate-control arguments are added.
    Other,
}

/// Immutable per-job configuration.
pub struct CompressionConfig {
    /// Rate-control discipline.
    pub compression_mode: Mode,
    /// Target bitrate in kilobits per second, under `Bitrate`.
    pub target_bitrate: u32,
    /// Fixed parameter in thousandths, under `Crf`.
    pub target_crf_milli: i64,
    /// Target score in thousandths, under `Vmaf`.
    pub target_vmaf_milli: i64,
    /// Worker threads handed to the encoder; zero leaves it unset.
    pub ffmpeg_threads: u32,
    /// Worker threads handed to the prober.
    pub ffprobe_threads: u32,
    /// Optional resolution cap.
    pub max_resolution: MaxResolution,
    /// Chosen video encoder identifier; empty means the default.
    pub video_encoder: String,
    /// Chosen audio encoder identifier; empty means the default.
    pub audio_encoder: String,
    /// Container format of the output.
    pub target_format: String,
    /// Video encoders available, with their extra tokens.
    pub available_video_encoders: Vec<EncoderConfig>,
    /// Audio encoders available, with their extra tokens.
    pub available_audio_encoders: Vec<EncoderConfig>,
    /// Extra filter text, split on whitespace when assembled.
    pub custom_filters: Vec<String>,
    /// Suffix appended to output names.
    pub suffix: String,
    /// Run bitrate mode in two passes.
    pub two_pass: bool,
    /// Bitrate floor in kilobits per second under which a bitrate-mode
    /// job is bypassed; zero disables the check.
    pub min_bitrate_threshold: u32,
    /// Give up re-encoding when the output bitrate stays too high.
    pub crf_auto_skip: bool,
    /// Threshold of the give-up check, in percent of the input bitrate.
    pub crf_auto_skip_threshold: u32,
    /// Score the output after compression.
    pub enable_vmaf: bool,
    /// Score the whole file rather than sample windows.
    pub vmaf_full_computation: bool,
    /// Number of sample windows.
    pub vmaf_segment_count: u32,
    /// Length of each sample window, in seconds.
    pub vmaf_segment_duration: u32,
    /// Derive window count and length from the duration.
    pub vmaf_auto_config: bool,
    /// Prefer hardware-accelerated scoring.
    pub vmaf_use_cuda: bool,
    /// Use the low-complexity-tuned model variant.
    pub vmaf_neg: bool,
    /// Extra options appended to the metric filter.
    pub custom_vmaf_params: Vec<String>,
    /// Let history guide the search.
    pub vmaf_search_optimization: bool,
}

/// The rate-control discipline named by a configuration text: the four
/// known names, anything else degrading to `Other`.
pub open spec fn mode_spec(s: Seq<char>) -> Mode {
    if s == "copy"@ {
        Mode::Copy
    } else if s == "bitrate"@ {
        Mode::Bitrate
    } else if s == "crf"@ {
        Mode::Crf
    } else if s == "vmaf"@ {
        Mode::Vmaf
    } else {
        Mode::Other
    }
}

/// Read a rate-control discipline from its configuration text.
pub fn mode_from_str(s: &str) -> (r: Mode)
    ensures
        r == mode_spec(s@),
{
    let c = crate::text::to_chars(s);
    if crate::text::chars_eq(&c, &crate::text::to_chars("copy")) {
        Mode::Copy
    } else if crate::text::chars_eq(&c, &crate::text::to_chars("bitrate")) {
        Mode::Bitrate
    } else if crate::text::chars_eq(&c, &crate::text::to_chars("crf")) {
        Mode::Crf
    } else if crate::text::chars_eq(&c, &crate::text::to_chars("vmaf")) {
        Mode::Vmaf
    } else {
        Mode::Other
    }
}

/// One emitted progress notification.
pub struct ProgressPayload {
    /// Job key.
    pub path: String,
    /// Completion, zero to one hundred.
    pub progress: u8,
    /// Status at this moment.
    pub status: JobStatus,
    /// Instantaneous speed in thousandths of real time.
    pub speed_milli: u64,
    /// Instantaneous bitrate in thousandths of a kilobit per second.
    pub bitrate_milli: u64,
    /// Refreshed snapshot of the output, when one is known.
    pub output_info: Option<VideoInfo>,
}

impl ProgressPayload {
    /// The notification of a job that finished: full progress, `Done`,
    /// and the refreshed snapshot. A job that was never scored hands on
    /// a snapshot without score fields.
    pub fn done(path: String, output_info: Option<VideoInfo>) -> (r: ProgressPayload)
        ensures
            r.path == path,
            r.progress == 100,
            r.status == JobStatus::Done,
            r.speed_milli == 0,
            r.bitrate_milli == 0,
            r.output_info == output_info,
            match output_info {
                Some(i) => has_no_score(i) ==> match r.output_info {
                    Some(o) => has_no_score(o),
                    None => false,
                },
                None => r.output_info is None,
            },
    {
        ProgressPayload {
            path,
            progress: 100,
            status: JobStatus::Done,
            speed_milli: 0,
            bitrate_milli: 0,
            output_info,
        }
    }

    /// The notification of a skipped job: full progress, `Skipped`, the
    /// input's own bitrate and untouched snapshot — the original
    /// metadata is what the consumer sees.
    pub fn skipped(path: String, input_bitrate_milli: u64, input_info: Option<VideoInfo>) -> (r:
        ProgressPayload)
        ensures
            r.path == path,
            r.progress == 100,
            r.status == JobStatus::Skipped,
            r.speed_milli == 0,
            r.bitrate_milli == input_bitrate_milli,
            r.output_info == input_info,
    {
        ProgressPayload {
            path,
            progress: 100,
            status: JobStatus::Skipped,
            speed_milli: 0,
            bitrate_milli: input_bitrate_milli,
            output_info: input_info,
        }
    }

    /// The notification of a job queued for scoring: it does not block
    /// on the score.
    pub fn waiting_for_score(path: String, output_info: Option<VideoInfo>) -> (r: ProgressPayload)
        ensures
            r.path == path,
            r.progress == 100,
            r.status == JobStatus::WaitingForVmaf,
            r.speed_milli == 0,
            r.bitrate_milli == 0,
            r.output_info == output_info,
    {
        ProgressPayload {
            path,
            progress: 100,
            status: JobStatus::WaitingForVmaf,
            speed_milli: 0,
            bitrate_milli: 0,
            output_info,
        }
    }

    /// The notification of a job that ended without a result:
    /// `Cancelled` or `Error`, at zero progress, with no snapshot.
    pub fn terminal(path: String, status: JobStatus) -> (r: ProgressPayload)
        requires
            status == JobStatus::Cancelled || status == JobStatus::Error,
        ensures
            r.path == path,
            r.progress == 0,
            r.status == status,
            r.speed_milli == 0,
            r.bitrate_milli == 0,
            r.output_info is None,
    {
        ProgressPayload {
            path,
            progress: 0,
            status,
            speed_milli: 0,
            bitrate_milli: 0,
            output_info: None,
        }
    }
}

/// One emitted search-progress notification.
pub struct VmafSearchPayload {
    /// Job key.
    pub path: String,
    /// Probe number, starting at one.
    pub iteration: u32,
    /// Probe budget.
    pub max_iterations: u32,
    /// Parameter being probed, in thousandths.
    pub current_crf_milli: i64,
    /// Score measured for it, in thousandths; zero before measuring.
    pub current_vmaf_milli: i64,
    /// Target score in thousandths.
    pub target_vmaf_milli: i64,
    /// Best parameter meeting the target so far.
    pub best_crf_milli: Option<i64>,
    /// Its score.
    pub best_vmaf_milli: Option<i64>,
    /// All samples taken so far.
    pub samples: Vec<crate::search::Sample>,
}

} // verus!
