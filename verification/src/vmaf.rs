//! Quality scoring: model selection by resolution, the per-segment
//! scoring session with its hardware-then-software fallback, score
//! averaging, and the metric tool's filter graph and argument lists.
//!
//! Scores are thousandths of the metric's zero-to-one-hundred scale.

use vstd::prelude::*;
use crate::media::{CompressionConfig, Mode};
use crate::text::{
    to_chars, chars_to_string, chars_eq, trim, trim_spec, u64_to_string, dec_str,
};
use crate::progress::{split_char_spec, split_char, MAX_VMAF_MILLI};
use crate::text::starts_with;

verus! {

/// Long edges beyond this mark a high-resolution video, which takes the
/// high-resolution model.
pub const HIGH_RES_EDGE: u32 = 2560;

/// The model file chosen for a resolution and model-variant flag: the
/// high-resolution variant beyond the edge threshold, the
/// low-complexity-tuned variant under the flag.
pub open spec fn model_filename_spec(width: u32, height: u32, neg: bool) -> Seq<char> {
    let high = (if width > height {
        width
    } else {
        height
    }) > HIGH_RES_EDGE;
    if !high && !neg {
        "vmaf_v0.6.1.json"@
    } else if high && !neg {
        "vmaf_4k_v0.6.1.json"@
    } else if !high && neg {
        "vmaf_v0.6.1neg.json"@
    } else {
        "vmaf_4k_v0.6.1neg.json"@
    }
}

/// Choose the model file for a resolution and model-variant flag.
pub fn select_model(width: u32, height: u32, neg: bool) -> (r: &'static str)
    ensures
        r@ == model_filename_spec(width, height, neg),
{
    let long_edge = if width > height {
        width
    } else {
        height
    };
    let high = long_edge > HIGH_RES_EDGE;
    if !high && !neg {
        "vmaf_v0.6.1.json"
    } else if high && !neg {
        "vmaf_4k_v0.6.1.json"
    } else if !high && neg {
        "vmaf_v0.6.1neg.json"
    } else {
        "vmaf_4k_v0.6.1neg.json"
    }
}

/// Width and height read from a resolution text `WxH`; a text of any
/// other shape, or an unreadable side, reads as zero.
pub open spec fn resolution_spec(res: Seq<char>) -> (u32, u32) {
    let parts = split_char_spec(res, 'x');
    if parts.len() != 2 {
        (0u32, 0u32)
    } else {
        let w = if parts[0].len() > 0 && crate::text::all_digits(parts[0])
            && crate::text::digits_val(parts[0]) <= u32::MAX {
            crate::text::digits_val(parts[0]) as u32
        } else {
            0u32
        };
        let h = if parts[1].len() > 0 && crate::text::all_digits(parts[1])
            && crate::text::digits_val(parts[1]) <= u32::MAX {
            crate::text::digits_val(parts[1]) as u32
        } else {
            0u32
        };
        (w, h)
    }
}

/// Read a resolution text `WxH`.
pub fn parse_resolution(res: &str) -> (r: (u32, u32))
    ensures
        r == resolution_spec(res@),
{
    let c = to_chars(res);
    let parts = split_char(&c, 'x');
    if parts.len() != 2 {
        proof {
            assert(split_char_spec(res@, 'x').len() == parts@.map_values(
                |t: Vec<char>| t@,
            ).len());
        }
        return (0, 0);
    }
    proof {
        assert(split_char_spec(res@, 'x').len() == parts@.map_values(|t: Vec<char>| t@).len());
        assert(split_char_spec(res@, 'x')[0] == parts@.map_values(|t: Vec<char>| t@)[0]);
        assert(split_char_spec(res@, 'x')[1] == parts@.map_values(|t: Vec<char>| t@)[1]);
    }
    let w: u32 = match crate::text::parse_u64(&parts[0]) {
        Some(v) => if v <= u32::MAX as u64 {
            v as u32
        } else {
            0
        },
        None => 0,
    };
    let h: u32 = match crate::text::parse_u64(&parts[1]) {
        Some(v) => if v <= u32::MAX as u64 {
            v as u32
        } else {
            0
        },
        None => 0,
    };
    (w, h)
}

/// The sum of a sequence of scores.
pub open spec fn sum_of(s: Seq<u64>) -> int
    decreases s.len(),
{
    if s.len() == 0 {
        0
    } else {
        sum_of(s.drop_last()) + s.last()
    }
}

/// The average of the collected segment scores, truncated to a
/// thousandth; no scores yield no average.
pub fn average_milli(scores: &Vec<u64>) -> (r: Option<u64>)
    requires
        forall|i: int| 0 <= i < scores@.len() ==> #[trigger] scores@[i] <= MAX_VMAF_MILLI,
    ensures
        scores@.len() == 0 <==> r is None,
        scores@.len() > 0 ==> r == Some((sum_of(scores@) / scores@.len() as int) as u64),
{
    if scores.len() == 0 {
        return None;
    }
    let mut total: u128 = 0;
    let mut i: usize = 0;
    while i < scores.len()
        invariant
            i <= scores@.len(),
            forall|j: int| 0 <= j < scores@.len() ==> #[trigger] scores@[j] <= MAX_VMAF_MILLI,
            total == sum_of(scores@.subrange(0, i as int)),
            total <= i * (MAX_VMAF_MILLI as int),
        decreases scores@.len() - i,
    {
        proof {
            assert(scores@.subrange(0, i + 1).drop_last() =~= scores@.subrange(0, i as int));
            assert(scores@.subrange(0, i + 1).last() == scores@[i as int]);
            assert(i * (MAX_VMAF_MILLI as int) + MAX_VMAF_MILLI == (i + 1) * (
            MAX_VMAF_MILLI as int)) by (nonlinear_arith);
            assert(i + 1 <= usize::MAX);
            assert((i + 1) * (MAX_VMAF_MILLI as int) <= usize::MAX * (MAX_VMAF_MILLI as int)) by (
            nonlinear_arith)
                requires
                    0 <= i + 1 <= usize::MAX as int,
            {}
        }
        total = total + scores[i] as u128;
        i += 1;
    }
    proof {
        assert(scores@.subrange(0, scores@.len() as int) =~= scores@);
        assert(0 <= sum_of(scores@));
        assert(sum_of(scores@) / (scores@.len() as int) <= sum_of(scores@)) by {
            vstd::arithmetic::div_mod::lemma_div_is_ordered_by_denominator(
                sum_of(scores@),
                1,
                scores@.len() as int,
            );
        }
    }
    let avg: u128 = total / (scores.len() as u128);
    Some(avg as u64)
}

/// The device a score was computed on.
#[derive(Clone, Copy, Debug, PartialEq, Eq, Structural)]
pub enum Device {
    /// Hardware-accelerated.
    Cuda,
    /// Software.
    Cpu,
}

impl Device {
    /// The device name shown in the metadata.
    pub fn label(&self) -> (r: &'static str)
        ensures
            *self == Device::Cuda ==> r@ == "CUDA"@,
            *self == Device::Cpu ==> r@ == "CPU"@,
    {
        match self {
            Device::Cuda => "CUDA",
            Device::Cpu => "CPU",
        }
    }
}

/// Scoring is skipped outright when a resolution cap reshaped the
/// output, or when reference and output are the same file.
pub fn scoring_precheck_skip(max_resolution_enabled: bool, same_file: bool) -> (r: bool)
    ensures
        r == (max_resolution_enabled || same_file),
{
    max_resolution_enabled || same_file
}

/// What the scoring worker does next for a segment.
#[derive(Clone, Copy, Debug, PartialEq, Eq, Structural)]
pub enum ScoreAttempt {
    /// Cancellation was requested: stop without a final score.
    Abort,
    /// Try the hardware-accelerated path.
    TryCuda,
    /// Try the software path.
    TryCpu,
}

/// One scoring session: the per-segment scores collected so far and the
/// state of the hardware-then-software fallback.
pub struct ScoringSession {
    /// Hardware acceleration was asked for.
    pub want_cuda: bool,
    /// A hardware attempt failed once: no further hardware attempts.
    pub cuda_failed: bool,
    /// Scores collected, in segment order; failed segments are simply
    /// absent.
    pub scores: Vec<u64>,
    /// Device of the last successful attempt.
    pub device: Device,
}

impl ScoringSession {
    /// All collected scores are in range.
    pub open spec fn wf(self) -> bool {
        forall|i: int| 0 <= i < self.scores@.len() ==> #[trigger] self.scores@[i] <= MAX_VMAF_MILLI
    }

    /// Start a session; hardware is preferred when asked for.
    pub fn new(want_cuda: bool) -> (r: ScoringSession)
        ensures
            r.wf(),
            r.want_cuda == want_cuda,
            !r.cuda_failed,
            r.scores@.len() == 0,
            r.device == Device::Cpu,
    {
        ScoringSession { want_cuda, cuda_failed: false, scores: Vec::new(), device: Device::Cpu }
    }

    /// Decide the next attempt for a segment: cancellation stops the
    /// session; hardware is tried while it is wanted and has not
    /// failed; software otherwise.
    pub fn next_attempt(&self, cancelled: bool) -> (r: ScoreAttempt)
        ensures
            cancelled <==> r == ScoreAttempt::Abort,
            !cancelled && self.want_cuda && !self.cuda_failed <==> r == ScoreAttempt::TryCuda,
            !cancelled && !(self.want_cuda && !self.cuda_failed) <==> r == ScoreAttempt::TryCpu,
    {
        if cancelled {
            ScoreAttempt::Abort
        } else if self.want_cuda && !self.cuda_failed {
            ScoreAttempt::TryCuda
        } else {
            ScoreAttempt::TryCpu
        }
    }

    /// Record a hardware attempt: a score is kept and credited to the
    /// hardware device; a failure bars further hardware attempts, and
    /// the caller falls back to software for this same segment after
    /// re-checking cancellation.
    pub fn record_cuda(&mut self, score: Option<u64>)
        requires
            old(self).wf(),
            match score {
                Some(v) => v <= MAX_VMAF_MILLI,
                None => true,
            },
        ensures
            final(self).wf(),
            final(self).want_cuda == old(self).want_cuda,
            match score {
                Some(v) => final(self).scores@ =~= old(self).scores@.push(v) && final(self).device
                    == Device::Cuda && final(self).cuda_failed == old(self).cuda_failed,
                None => final(self).scores@ =~= old(self).scores@ && final(self).cuda_failed
                    && final(self).device == old(self).device,
            },
    {
        match score {
            Some(v) => {
                self.scores.push(v);
                self.device = Device::Cuda;
            },
            None => {
                self.cuda_failed = true;
            },
        }
    }

    /// Record a software attempt: a score is kept and credited to the
    /// software device; a failed segment is simply omitted from the
    /// average.
    pub fn record_cpu(&mut self, score: Option<u64>)
        requires
            old(self).wf(),
            match score {
                Some(v) => v <= MAX_VMAF_MILLI,
                None => true,
            },
        ensures
            final(self).wf(),
            final(self).want_cuda == old(self).want_cuda,
            final(self).cuda_failed == old(self).cuda_failed,
            final(self).device == Device::Cpu,
            match score {
                Some(v) => final(self).scores@ =~= old(self).scores@.push(v),
                None => final(self).scores@ =~= old(self).scores@,
            },
    {
        self.device = Device::Cpu;
        match score {
            Some(v) => {
                self.scores.push(v);
            },
            None => {},
        }
    }

    /// The session's final score: the average of the collected segment
    /// scores, and none when every segment failed.
    pub fn final_score(&self) -> (r: Option<u64>)
        requires
            self.wf(),
        ensures
            self.scores@.len() == 0 <==> r is None,
            self.scores@.len() > 0 ==> r == Some(
                (sum_of(self.scores@) / self.scores@.len() as int) as u64,
            ),
    {
        average_milli(&self.scores)
    }
}

/// One escaped character of a filter path: separators turn forward,
/// colons are escaped for the filter grammar.
pub open spec fn escape_char(c: char) -> Seq<char> {
    if c == '\\' {
        seq!['/']
    } else if c == ':' {
        seq!['\\', '\\', '\\', ':']
    } else {
        seq![c]
    }
}

/// A path escaped for use inside a filter graph.
pub open spec fn escape_spec(s: Seq<char>) -> Seq<char>
    decreases s.len(),
{
    if s.len() == 0 {
        Seq::empty()
    } else {
        escape_spec(s.drop_last()) + escape_char(s.last())
    }
}

/// Escape a path for use inside a filter graph: backslashes become
/// forward slashes and colons are escaped.
pub fn escape_path_for_filter(path: &Vec<char>) -> (r: Vec<char>)
    ensures
        r@ == escape_spec(path@),
{
    let mut r: Vec<char> = Vec::new();
    let mut i: usize = 0;
    while i < path.len()
        invariant
            i <= path@.len(),
            r@ =~= escape_spec(path@.subrange(0, i as int)),
        decreases path@.len() - i,
    {
        let c = path[i];
        if c == '\\' {
            r.push('/');
        } else if c == ':' {
            r.push('\\');
            r.push('\\');
            r.push('\\');
            r.push(':');
        } else {
            r.push(c);
        }
        i += 1;
        proof {
            assert(path@.subrange(0, i as int).drop_last() =~= path@.subrange(0, i - 1));
            assert(path@.subrange(0, i as int).last() == path@[i - 1]);
            assert(r@ =~= escape_spec(path@.subrange(0, i as int)));
        }
    }
    proof {
        assert(path@.subrange(0, path@.len() as int) =~= path@);
    }
    r
}

/// The trimmed extra options appended to the metric's option text, each
/// after a separating colon; all-whitespace entries contribute nothing.
pub open spec fn custom_opts_spec(params: Seq<Seq<char>>) -> Seq<char>
    decreases params.len(),
{
    if params.len() == 0 {
        Seq::empty()
    } else {
        custom_opts_spec(params.drop_last()) + (if trim_spec(params.last()).len() > 0 {
            seq![':'] + trim_spec(params.last())
        } else {
            Seq::empty()
        })
    }
}

/// The metric's option text: the model path, optionally the structured
/// log request, then the extra options.
pub open spec fn vmaf_opts_spec(
    model_escaped: Seq<char>,
    log_escaped: Option<Seq<char>>,
    params: Seq<Seq<char>>,
) -> Seq<char> {
    "model='path="@ + model_escaped + "'"@ + (match log_escaped {
        Some(l) => ":log_fmt=json:log_path='"@ + l + "'"@,
        None => Seq::empty(),
    }) + custom_opts_spec(params)
}

/// Build the metric's option text from the escaped model path, the
/// escaped structured-log path if one is requested, and the extra
/// options.
pub fn vmaf_opts(
    model_escaped: &Vec<char>,
    log_escaped: Option<&Vec<char>>,
    params: &Vec<String>,
) -> (r: Vec<char>)
    ensures
        r@ == vmaf_opts_spec(
            model_escaped@,
            match log_escaped {
                Some(l) => Some(l@),
                None => None,
            },
            params@.map_values(|s: String| s@),
        ),
{
    let mut r = to_chars("model='path=");
    let mut i: usize = 0;
    while i < model_escaped.len()
        invariant
            i <= model_escaped@.len(),
            r@ =~= "model='path="@ + model_escaped@.subrange(0, i as int),
        decreases model_escaped@.len() - i,
    {
        r.push(model_escaped[i]);
        i += 1;
        proof {
            assert(r@ =~= "model='path="@ + model_escaped@.subrange(0, i as int));
        }
    }
    proof {
        assert(model_escaped@.subrange(0, model_escaped@.len() as int) =~= model_escaped@);
    }
    r.push('\'');
    proof {
        reveal_strlit("'");
        assert(r@ =~= "model='path="@ + model_escaped@ + "'"@);
    }
    if let Some(log) = log_escaped {
        let tag = to_chars(":log_fmt=json:log_path='");
        let ghost base = r@;
        let mut k: usize = 0;
        while k < tag.len()
            invariant
                k <= tag@.len(),
                r@ =~= base + tag@.subrange(0, k as int),
            decreases tag@.len() - k,
        {
            r.push(tag[k]);
            k += 1;
            proof {
                assert(r@ =~= base + tag@.subrange(0, k as int));
            }
        }
        proof {
            assert(tag@.subrange(0, tag@.len() as int) =~= tag@);
        }
        let ghost base2 = r@;
        let mut m: usize = 0;
        while m < log.len()
            invariant
                m <= log@.len(),
                r@ =~= base2 + log@.subrange(0, m as int),
            decreases log@.len() - m,
        {
            r.push(log[m]);
            m += 1;
            proof {
                assert(r@ =~= base2 + log@.subrange(0, m as int));
            }
        }
        proof {
            assert(log@.subrange(0, log@.len() as int) =~= log@);
        }
        r.push('\'');
        proof {
            assert(r@ =~= "model='path="@ + model_escaped@ + "'"@ + (":log_fmt=json:log_path='"@
                + log@ + "'"@));
        }
    }
    let ghost before_params = r@;
    let mut i2: usize = 0;
    while i2 < params.len()
        invariant
            i2 <= params@.len(),
            r@ =~= before_params + custom_opts_spec(
                params@.subrange(0, i2 as int).map_values(|s: String| s@),
            ),
        decreases params@.len() - i2,
    {
        let p = to_chars(params[i2].as_str());
        let t = trim(&p);
        let ghost mid = r@;
        if t.len() > 0 {
            r.push(':');
            let mut m: usize = 0;
            while m < t.len()
                invariant
                    m <= t@.len(),
                    r@ =~= mid + seq![':'] + t@.subrange(0, m as int),
                decreases t@.len() - m,
            {
                r.push(t[m]);
                m += 1;
                proof {
                    assert(r@ =~= mid + seq![':'] + t@.subrange(0, m as int));
                }
            }
            proof {
                assert(t@.subrange(0, t@.len() as int) =~= t@);
            }
        }
        i2 += 1;
        proof {
            let pv = params@.subrange(0, i2 as int).map_values(|s: String| s@);
            assert(pv.drop_last() =~= params@.subrange(0, i2 - 1).map_values(|s: String| s@));
            assert(pv.last() == params@[i2 - 1]@);
            assert(r@ =~= before_params + custom_opts_spec(pv));
        }
    }
    proof {
        assert(params@.subrange(0, params@.len() as int) =~= params@);
    }
    r
}

/// The software filter graph comparing the distorted first input
/// against the reference second input.
pub fn vmaf_filter_cpu(opts: &Vec<char>) -> (r: String)
    ensures
        r@ == "[0:v]setpts=PTS-STARTPTS,format=yuv420p[dis];[1:v]setpts=PTS-STARTPTS,format=yuv420p[ref];[dis][ref]libvmaf="@
            + opts@,
{
    let mut s = String::from_str(
        "[0:v]setpts=PTS-STARTPTS,format=yuv420p[dis];[1:v]setpts=PTS-STARTPTS,format=yuv420p[ref];[dis][ref]libvmaf=",
    );
    let o = chars_to_string(opts);
    s.append(o.as_str());
    s
}

/// The hardware filter graph comparing the distorted first input
/// against the reference second input.
pub fn vmaf_filter_cuda(opts: &Vec<char>) -> (r: String)
    ensures
        r@ == "[0:v]scale_cuda=format=yuv420p[dis];[1:v]scale_cuda=format=yuv420p[ref];[dis][ref]libvmaf_cuda="@
            + opts@,
{
    let mut s = String::from_str(
        "[0:v]scale_cuda=format=yuv420p[dis];[1:v]scale_cuda=format=yuv420p[ref];[dis][ref]libvmaf_cuda=",
    );
    let o = chars_to_string(opts);
    s.append(o.as_str());
    s
}

/// The name under which the tool decodes a codec on the hardware path,
/// if it has one.
pub open spec fn cuda_decoder_spec(codec: Seq<char>) -> Option<Seq<char>> {
    if codec == "h264"@ {
        Some("h264_cuvid"@)
    } else if codec == "hevc"@ {
        Some("hevc_cuvid"@)
    } else if codec == "vp9"@ {
        Some("vp9_cuvid"@)
    } else if codec == "av1"@ {
        Some("av1_cuvid"@)
    } else if codec == "mpeg2video"@ || codec == "mpeg2"@ {
        Some("mpeg2_cuvid"@)
    } else if codec == "vc1"@ {
        Some("vc1_cuvid"@)
    } else if codec == "vp8"@ {
        Some("vp8_cuvid"@)
    } else if codec == "mjpeg"@ {
        Some("mjpeg_cuvid"@)
    } else {
        None
    }
}

/// The hardware decoder for a codec, if the tool has one.
pub fn get_cuda_decoder(codec: &str) -> (r: Option<&'static str>)
    ensures
        match r {
            Some(d) => cuda_decoder_spec(codec@) == Some(d@),
            None => cuda_decoder_spec(codec@) is None,
        },
{
    let c = to_chars(codec);
    if chars_eq(&c, &to_chars("h264")) {
        Some("h264_cuvid")
    } else if chars_eq(&c, &to_chars("hevc")) {
        Some("hevc_cuvid")
    } else if chars_eq(&c, &to_chars("vp9")) {
        Some("vp9_cuvid")
    } else if chars_eq(&c, &to_chars("av1")) {
        Some("av1_cuvid")
    } else if chars_eq(&c, &to_chars("mpeg2video")) || chars_eq(&c, &to_chars("mpeg2")) {
        Some("mpeg2_cuvid")
    } else if chars_eq(&c, &to_chars("vc1")) {
        Some("vc1_cuvid")
    } else if chars_eq(&c, &to_chars("vp8")) {
        Some("vp8_cuvid")
    } else if chars_eq(&c, &to_chars("mjpeg")) {
        Some("mjpeg_cuvid")
    } else {
        None
    }
}

/// The metric invocation's argument list: quiet banner, a thread count
/// of one on hardware and four on software, info-level output so the
/// score appears, hardware acceleration flags and decoder when used,
/// the optional window on each input (the distorted sample of a search
/// is already trimmed, so only the reference is windowed there), the
/// distorted then the reference input, the filter graph, and a null
/// sink.
pub open spec fn vmaf_args_spec(
    use_cuda: bool,
    dist: Seq<char>,
    reference: Seq<char>,
    ref_decoder: Option<Seq<char>>,
    dist_window: Option<(nat, nat)>,
    ref_window: Option<(nat, nat)>,
    filter: Seq<char>,
) -> Seq<Seq<char>> {
    let hw = if use_cuda {
        seq!["-hwaccel"@, "cuda"@, "-hwaccel_output_format"@, "cuda"@]
    } else {
        Seq::<Seq<char>>::empty()
    };
    let dec = match ref_decoder {
        Some(d) => if use_cuda {
            seq!["-c:v"@, d]
        } else {
            Seq::<Seq<char>>::empty()
        },
        None => Seq::<Seq<char>>::empty(),
    };
    seq!["-hide_banner"@, "-threads"@, if use_cuda {
        "1"@
    } else {
        "4"@
    }, "-v"@, "info"@] + hw + window_args(dist_window) + seq!["-i"@, dist] + hw + dec
        + window_args(ref_window) + seq!["-i"@, reference] + seq![
        "-filter_complex"@,
        filter,
        "-f"@,
        "null"@,
        "-"@,
    ]
}

/// The window flags of one input, in whole seconds.
pub open spec fn window_args(w: Option<(nat, nat)>) -> Seq<Seq<char>> {
    match w {
        Some(sw) => seq!["-ss"@, dec_str(sw.0), "-t"@, dec_str(sw.1)],
        None => Seq::empty(),
    }
}

fn push_window(args: &mut Vec<String>, w: Option<(u64, u64)>)
    ensures
        crate::args::views(final(args)@) =~= crate::args::views(old(args)@) + window_args(
            match w {
                Some(p) => Some((p.0 as nat, p.1 as nat)),
                None => None,
            },
        ),
{
    match w {
        Some((s, t)) => {
            args.push(String::from_str("-ss"));
            args.push(u64_to_string(s));
            args.push(String::from_str("-t"));
            args.push(u64_to_string(t));
        },
        None => {},
    }
}

/// Assemble the metric invocation's argument list. Window times are in
/// whole seconds.
pub fn vmaf_args(
    use_cuda: bool,
    dist: &String,
    reference: &String,
    ref_decoder: Option<&String>,
    dist_window: Option<(u64, u64)>,
    ref_window: Option<(u64, u64)>,
    filter: &String,
) -> (r: Vec<String>)
    ensures
        crate::args::views(r@) =~= vmaf_args_spec(
            use_cuda,
            dist@,
            reference@,
            match ref_decoder {
                Some(d) => Some(d@),
                None => None,
            },
            match dist_window {
                Some(p) => Some((p.0 as nat, p.1 as nat)),
                None => None,
            },
            match ref_window {
                Some(p) => Some((p.0 as nat, p.1 as nat)),
                None => None,
            },
            filter@,
        ),
{
    let ghost hw_chunk: Seq<Seq<char>> = if use_cuda {
        seq!["-hwaccel"@, "cuda"@, "-hwaccel_output_format"@, "cuda"@]
    } else {
        Seq::<Seq<char>>::empty()
    };
    let ghost dec_chunk: Seq<Seq<char>> = match ref_decoder {
        Some(d) => if use_cuda {
            seq!["-c:v"@, d@]
        } else {
            Seq::<Seq<char>>::empty()
        },
        None => Seq::<Seq<char>>::empty(),
    };
    let mut args: Vec<String> = Vec::new();
    args.push(String::from_str("-hide_banner"));
    args.push(String::from_str("-threads"));
    if use_cuda {
        args.push(String::from_str("1"));
    } else {
        args.push(String::from_str("4"));
    }
    args.push(String::from_str("-v"));
    args.push(String::from_str("info"));
    if use_cuda {
        args.push(String::from_str("-hwaccel"));
        args.push(String::from_str("cuda"));
        args.push(String::from_str("-hwaccel_output_format"));
        args.push(String::from_str("cuda"));
    }
    let ghost c1 = crate::args::views(args@);
    proof {
        assert(c1 =~= seq!["-hide_banner"@, "-threads"@, if use_cuda {
            "1"@
        } else {
            "4"@
        }, "-v"@, "info"@] + hw_chunk);
    }
    push_window(&mut args, dist_window);
    args.push(String::from_str("-i"));
    args.push(dist.clone());
    let ghost c2 = crate::args::views(args@);
    proof {
        assert(c2 =~= c1 + window_args(
            match dist_window {
                Some(p) => Some((p.0 as nat, p.1 as nat)),
                None => None,
            },
        ) + seq!["-i"@, dist@]);
    }
    if use_cuda {
        args.push(String::from_str("-hwaccel"));
        args.push(String::from_str("cuda"));
        args.push(String::from_str("-hwaccel_output_format"));
        args.push(String::from_str("cuda"));
    }
    if use_cuda {
        if let Some(d) = ref_decoder {
            args.push(String::from_str("-c:v"));
            args.push(d.clone());
        }
    }
    let ghost c3 = crate::args::views(args@);
    proof {
        assert(c3 =~= c2 + hw_chunk + dec_chunk);
    }
    push_window(&mut args, ref_window);
    args.push(String::from_str("-i"));
    args.push(reference.clone());
    let ghost c4 = crate::args::views(args@);
    proof {
        assert(c4 =~= c3 + window_args(
            match ref_window {
                Some(p) => Some((p.0 as nat, p.1 as nat)),
                None => None,
            },
        ) + seq!["-i"@, reference@]);
    }
    args.push(String::from_str("-filter_complex"));
    args.push(filter.clone());
    args.push(String::from_str("-f"));
    args.push(String::from_str("null"));
    args.push(String::from_str("-"));
    proof {
        assert(crate::args::views(args@) =~= c4 + seq![
            "-filter_complex"@,
            filter@,
            "-f"@,
            "null"@,
            "-"@,
        ]);
        assert(crate::args::views(args@) =~= vmaf_args_spec(
            use_cuda,
            dist@,
            reference@,
            match ref_decoder {
                Some(d) => Some(d@),
                None => None,
            },
            match dist_window {
                Some(p) => Some((p.0 as nat, p.1 as nat)),
                None => None,
            },
            match ref_window {
                Some(p) => Some((p.0 as nat, p.1 as nat)),
                None => None,
            },
            filter@,
        ));
    }
    args
}

/// The name of a temporary sample artifact: a unique stamp, the whole
/// parameter, and the input's own container extension.
pub fn sample_file_name(stamp: u64, crf_milli: i64, ext: &String) -> (r: String)
    requires
        0 <= crf_milli,
    ensures
        r@ == "vmaf_sample_"@ + dec_str(stamp as nat) + "_"@ + dec_str(
            (crf_milli / 1000) as nat,
        ) + "."@ + ext@,
{
    proof {
        reveal_strlit("_");
        reveal_strlit(".");
    }
    let mut s = String::from_str("vmaf_sample_");
    let a = u64_to_string(stamp);
    s.append(a.as_str());
    s.append("_");
    let b = u64_to_string((crf_milli / 1000) as u64);
    s.append(b.as_str());
    s.append(".");
    s.append(ext.as_str());
    s
}

/// The name of a temporary structured-log artifact.
pub fn log_file_name(stamp: u64) -> (r: String)
    ensures
        r@ == "vmaf_log_"@ + dec_str(stamp as nat) + ".json"@,
{
    proof {
        reveal_strlit(".json");
    }
    let mut s = String::from_str("vmaf_log_");
    let a = u64_to_string(stamp);
    s.append(a.as_str());
    s.append(".json");
    s
}

/// Whether a file name marks a temporary sample artifact, which cleanup
/// removes.
pub fn is_temp_sample_name(name: &Vec<char>) -> (r: bool)
    ensures
        r == ("vmaf_sample_"@.len() <= name@.len() && name@.subrange(
            0,
            "vmaf_sample_"@.len() as int,
        ) == "vmaf_sample_"@),
{
    starts_with(name, &to_chars("vmaf_sample_"))
}

/// Whether a file name belongs to the pass logs under the given prefix,
/// which cleanup removes after a two-pass run.
pub fn is_pass_log_name(name: &Vec<char>, prefix: &Vec<char>) -> (r: bool)
    ensures
        r == (prefix@.len() <= name@.len() && name@.subrange(0, prefix@.len() as int) == prefix@),
{
    starts_with(name, prefix)
}

/// Attach the score found during the parameter search to a refreshed
/// snapshot: the score itself, the device the search scored on, and the
/// model chosen for the snapshot's resolution. Everything else is kept.
pub fn attach_search_score(
    info: crate::media::VideoInfo,
    score_milli: u64,
    use_cuda: bool,
    neg: bool,
) -> (r: crate::media::VideoInfo)
    requires
        score_milli <= MAX_VMAF_MILLI,
    ensures
        r.vmaf_milli == Some(score_milli),
        use_cuda ==> match r.vmaf_device {
            Some(d) => d@ == "CUDA"@,
            None => false,
        },
        !use_cuda ==> match r.vmaf_device {
            Some(d) => d@ == "CPU"@,
            None => false,
        },
        match r.vmaf_model {
            Some(m) => m@ == model_filename_spec(
                resolution_spec(info.resolution@).0,
                resolution_spec(info.resolution@).1,
                neg,
            ),
            None => false,
        },
        r.name == info.name,
        r.path == info.path,
        r.size == info.size,
        r.resolution == info.resolution,
        r.bitrate == info.bitrate,
        r.encoder == info.encoder,
        r.status == info.status,
        r.progress == info.progress,
        r.duration_ms == info.duration_ms,
        r.vmaf_detail == info.vmaf_detail,
        r.vmaf_total_segments == info.vmaf_total_segments,
{
    let (w, h) = parse_resolution(info.resolution.as_str());
    let model = select_model(w, h, neg);
    let device = if use_cuda {
        Device::Cuda
    } else {
        Device::Cpu
    };
    let mut r = info;
    r.vmaf_milli = Some(score_milli);
    r.vmaf_device = Some(String::from_str(device.label()));
    r.vmaf_model = Some(String::from_str(model));
    r
}

/// Annotate a snapshot with the outcome of a scoring session: the
/// per-segment detail, the planned segment count, the device and model,
/// and the average — or no average, when every segment failed.
/// Everything else is kept.
pub fn annotate_scored(
    info: crate::media::VideoInfo,
    session: &ScoringSession,
    model: &str,
    total_segments: u32,
) -> (r: crate::media::VideoInfo)
    requires
        session.wf(),
    ensures
        match r.vmaf_detail {
            Some(d) => d@ == session.scores@,
            None => false,
        },
        r.vmaf_total_segments == Some(total_segments),
        session.scores@.len() == 0 <==> r.vmaf_milli is None,
        session.scores@.len() > 0 ==> r.vmaf_milli == Some(
            (sum_of(session.scores@) / session.scores@.len() as int) as u64,
        ),
        session.device == Device::Cuda ==> match r.vmaf_device {
            Some(d) => d@ == "CUDA"@,
            None => false,
        },
        session.device == Device::Cpu ==> match r.vmaf_device {
            Some(d) => d@ == "CPU"@,
            None => false,
        },
        match r.vmaf_model {
            Some(m) => m@ == model@,
            None => false,
        },
        r.name == info.name,
        r.path == info.path,
        r.status == info.status,
        r.progress == info.progress,
        r.duration_ms == info.duration_ms,
{
    let avg = session.final_score();
    let mut detail: Vec<u64> = Vec::new();
    let mut i: usize = 0;
    while i < session.scores.len()
        invariant
            i <= session.scores@.len(),
            detail@ == session.scores@.subrange(0, i as int),
        decreases session.scores@.len() - i,
    {
        detail.push(session.scores[i]);
        i += 1;
        proof {
            assert(detail@ =~= session.scores@.subrange(0, i as int));
        }
    }
    proof {
        assert(detail@ =~= session.scores@);
    }
    let mut r = info;
    r.vmaf_milli = avg;
    r.vmaf_detail = Some(detail);
    r.vmaf_total_segments = Some(total_segments);
    r.vmaf_device = Some(String::from_str(session.device.label()));
    r.vmaf_model = Some(String::from_str(model));
    r
}

/// The fixed locations tried for a model file when neither the
/// environment nor the tool's own directories offer it.
pub fn model_search_candidates(model_filename: &String) -> (r: Vec<String>)
    ensures
        r@.map_values(|s: String| s@) =~= seq![
            "C:\\Program Files\\FFmpeg\\share\\model\\"@ + model_filename@,
            "C:\\Program Files\\ffmpeg\\share\\model\\"@ + model_filename@,
            "/usr/share/model/"@ + model_filename@,
            "/usr/local/share/model/"@ + model_filename@,
        ],
{
    let mut r: Vec<String> = Vec::new();
    let mut a = String::from_str("C:\\Program Files\\FFmpeg\\share\\model\\");
    a.append(model_filename.as_str());
    r.push(a);
    let mut b = String::from_str("C:\\Program Files\\ffmpeg\\share\\model\\");
    b.append(model_filename.as_str());
    r.push(b);
    let mut c = String::from_str("/usr/share/model/");
    c.append(model_filename.as_str());
    r.push(c);
    let mut d = String::from_str("/usr/local/share/model/");
    d.append(model_filename.as_str());
    r.push(d);
    proof {
        assert(r@.map_values(|s: String| s@) =~= seq![
            "C:\\Program Files\\FFmpeg\\share\\model\\"@ + model_filename@,
            "C:\\Program Files\\ffmpeg\\share\\model\\"@ + model_filename@,
            "/usr/share/model/"@ + model_filename@,
            "/usr/local/share/model/"@ + model_filename@,
        ]);
    }
    r
}

} // verus!
