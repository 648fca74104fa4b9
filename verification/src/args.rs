//! Assembly of the encoder's argument lists: the main encode invocation
//! with its rate-control flag, filters, per-encoder tokens and progress
//! stream, the null-output first pass and pass-linked second pass of
//! two-pass mode, and the trimmed no-audio sample encode the parameter
//! search uses.
//!
//! Every list is stated argument for argument over the configuration.

use vstd::prelude::*;
use crate::media::{CompressionConfig, EncoderConfig, Mode};
use crate::search::{crf_arg_spec, get_crf_arg};
use crate::text::{
    to_chars, chars_to_string, split_ws, split_ws_spec, contains_sub, contains_seq, u64_to_string,
    milli_to_string, dec_str, milli_str,
};

verus! {

/// The character views of a list of argument strings.
pub open spec fn views(args: Seq<String>) -> Seq<Seq<char>> {
    args.map_values(|s: String| s@)
}

/// The chosen video encoder identifier: `copy` under stream-copy, the
/// default `libx264` when unset, the configured one otherwise.
pub open spec fn video_encoder_spec(cfg: CompressionConfig) -> Seq<char> {
    if cfg.compression_mode == Mode::Copy {
        "copy"@
    } else if cfg.video_encoder@.len() == 0 {
        "libx264"@
    } else {
        cfg.video_encoder@
    }
}

/// The chosen audio encoder identifier: `copy` under stream-copy, the
/// default `aac` when unset, the configured one otherwise.
pub open spec fn audio_encoder_spec(cfg: CompressionConfig) -> Seq<char> {
    if cfg.compression_mode == Mode::Copy {
        "copy"@
    } else if cfg.audio_encoder@.len() == 0 {
        "aac"@
    } else {
        cfg.audio_encoder@
    }
}

/// The chosen video encoder identifier.
pub fn video_encoder_of(cfg: &CompressionConfig) -> (r: String)
    ensures
        r@ == video_encoder_spec(*cfg),
{
    if cfg.compression_mode == Mode::Copy {
        String::from_str("copy")
    } else if cfg.video_encoder.as_str().unicode_len() == 0 {
        String::from_str("libx264")
    } else {
        cfg.video_encoder.clone()
    }
}

/// The chosen audio encoder identifier.
pub fn audio_encoder_of(cfg: &CompressionConfig) -> (r: String)
    ensures
        r@ == audio_encoder_spec(*cfg),
{
    if cfg.compression_mode == Mode::Copy {
        String::from_str("copy")
    } else if cfg.audio_encoder.as_str().unicode_len() == 0 {
        String::from_str("aac")
    } else {
        cfg.audio_encoder.clone()
    }
}

/// The constant-quality flag used by fixed-quality mode for the given
/// encoder identifier.
pub open spec fn crf_mode_flag_spec(venc: Seq<char>) -> Seq<char> {
    if contains_seq(venc, "libx264"@) || contains_seq(venc, "libx265"@) || contains_seq(
        venc,
        "libsvtav1"@,
    ) || contains_seq(venc, "vp9"@) {
        "-crf"@
    } else if contains_seq(venc, "nvenc"@) {
        "-cq"@
    } else {
        "-q:v"@
    }
}

fn crf_mode_flag(venc: &String) -> (r: &'static str)
    ensures
        r@ == crf_mode_flag_spec(venc@),
{
    let v = to_chars(venc.as_str());
    if contains_sub(&v, &to_chars("libx264")) || contains_sub(&v, &to_chars("libx265"))
        || contains_sub(&v, &to_chars("libsvtav1")) || contains_sub(&v, &to_chars("vp9")) {
        "-crf"
    } else if contains_sub(&v, &to_chars("nvenc")) {
        "-cq"
    } else {
        "-q:v"
    }
}

/// The rate-control arguments of the main encode: the bitrate flag with
/// a `k` unit under bitrate mode; the family's quality flag with the
/// fixed parameter under fixed-quality mode; the family's quality flag
/// with the searched parameter (or the fallback default) under
/// score-guided mode; nothing under stream-copy or an unknown mode.
pub open spec fn rate_control_spec(cfg: CompressionConfig, search_crf_milli: Option<i64>) -> Seq<
    Seq<char>,
> {
    let venc = video_encoder_spec(cfg);
    match cfg.compression_mode {
        Mode::Bitrate => seq!["-b:v"@, dec_str(cfg.target_bitrate as nat) + "k"@],
        Mode::Crf => seq![
            crf_mode_flag_spec(venc),
            milli_str(
                if cfg.target_crf_milli >= 0 {
                    cfg.target_crf_milli as nat
                } else {
                    0
                },
            ),
        ],
        Mode::Vmaf => seq![
            crf_arg_spec(venc),
            milli_str(
                match search_crf_milli {
                    Some(c) => if c >= 0 {
                        c as nat
                    } else {
                        0
                    },
                    None => crate::search::DEFAULT_CRF_MILLI as nat,
                },
            ),
        ],
        _ => Seq::empty(),
    }
}

/// The whitespace-split tokens of each piece of extra argument text, in
/// order; all-whitespace pieces contribute nothing.
pub open spec fn concat_tokens(params: Seq<Seq<char>>) -> Seq<Seq<char>>
    decreases params.len(),
{
    if params.len() == 0 {
        Seq::empty()
    } else {
        concat_tokens(params.drop_last()) + split_ws_spec(params.last())
    }
}

/// Append the whitespace-split tokens of each piece of extra argument
/// text.
pub fn append_param_tokens(args: &mut Vec<String>, params: &Vec<String>)
    ensures
        views(final(args)@) =~= views(old(args)@) + concat_tokens(
            params@.map_values(|s: String| s@),
        ),
{
    let ghost base = views(args@);
    let mut i: usize = 0;
    while i < params.len()
        invariant
            i <= params@.len(),
            views(args@) =~= base + concat_tokens(
                params@.subrange(0, i as int).map_values(|s: String| s@),
            ),
        decreases params@.len() - i,
    {
        let p = to_chars(params[i].as_str());
        let toks = split_ws(&p);
        let ghost mid = views(args@);
        let mut k: usize = 0;
        while k < toks.len()
            invariant
                k <= toks@.len(),
                views(args@) =~= mid + toks@.subrange(0, k as int).map_values(
                    |t: Vec<char>| t@,
                ),
            decreases toks@.len() - k,
        {
            let ghost before = views(args@);
            args.push(chars_to_string(&toks[k]));
            k += 1;
            proof {
                assert(views(args@) =~= before.push(toks@[k - 1]@));
                assert(toks@.subrange(0, k as int).map_values(|t: Vec<char>| t@) =~= toks@
                    .subrange(0, k - 1).map_values(|t: Vec<char>| t@).push(toks@[k - 1]@));
                assert(views(args@) =~= mid + toks@.subrange(0, k as int).map_values(
                    |t: Vec<char>| t@,
                ));
            }
        }
        i += 1;
        proof {
            assert(toks@.subrange(0, toks@.len() as int) =~= toks@);
            assert(toks@.map_values(|t: Vec<char>| t@) == split_ws_spec(params@[i - 1]@));
            let pv = params@.subrange(0, i as int).map_values(|s: String| s@);
            assert(pv.drop_last() =~= params@.subrange(0, i - 1).map_values(|s: String| s@));
            assert(pv.last() == params@[i - 1]@);
            assert(views(args@) =~= base + concat_tokens(pv));
        }
    }
    proof {
        assert(params@.subrange(0, params@.len() as int) =~= params@);
    }
}

/// Index of the first available encoder whose identifier is `v`, or
/// `-1`.
pub open spec fn find_encoder(list: Seq<EncoderConfig>, v: Seq<char>) -> int
    decreases list.len(),
{
    if list.len() == 0 {
        -1
    } else if list[0].value@ == v {
        0
    } else {
        let r = find_encoder(list.drop_first(), v);
        if r < 0 {
            -1
        } else {
            1 + r
        }
    }
}

/// The extra tokens declared for the encoder identified by `v`:
/// the whitespace-split tokens of the first matching entry's argument
/// text, or nothing when no entry matches.
pub open spec fn encoder_tokens(list: Seq<EncoderConfig>, v: Seq<char>) -> Seq<Seq<char>> {
    let i = find_encoder(list, v);
    if i < 0 {
        Seq::empty()
    } else {
        concat_tokens(list[i].custom_params@.map_values(|s: String| s@))
    }
}

proof fn lemma_find_encoder(list: Seq<EncoderConfig>, v: Seq<char>, i: int)
    requires
        0 <= i <= list.len(),
        forall|j: int| 0 <= j < i ==> (#[trigger] list[j]).value@ != v,
        i < list.len() ==> list[i].value@ == v,
    ensures
        i < list.len() ==> find_encoder(list, v) == i,
        i == list.len() ==> find_encoder(list, v) < 0,
    decreases i,
{
    if list.len() == 0 {
    } else if i == 0 {
    } else {
        lemma_find_encoder(list.drop_first(), v, i - 1);
    }
}

/// Append the extra tokens declared for the encoder identified by `v`.
pub fn append_encoder_tokens(args: &mut Vec<String>, list: &Vec<EncoderConfig>, v: &String)
    ensures
        views(final(args)@) =~= views(old(args)@) + encoder_tokens(list@, v@),
{
    let mut i: usize = 0;
    while i < list.len()
        invariant
            i <= list@.len(),
            *args == *old(args),
            forall|j: int| 0 <= j < i ==> (#[trigger] list@[j]).value@ != v@,
        decreases list@.len() - i,
    {
        if list[i].value == *v {
            proof {
                lemma_find_encoder(list@, v@, i as int);
            }
            append_param_tokens(args, &list[i].custom_params);
            return;
        }
        i += 1;
    }
    proof {
        lemma_find_encoder(list@, v@, list@.len() as int);
        assert(views(args@) =~= views(old(args)@) + encoder_tokens(list@, v@));
    }
}

/// The scale filter capping the width, as `scale='min(W,iw)':-2`.
pub open spec fn scale_filter_spec(width: u32) -> Seq<char> {
    "scale='min("@ + dec_str(width as nat) + ",iw)':-2"@
}

fn scale_filter(width: u32) -> (r: String)
    ensures
        r@ == scale_filter_spec(width),
{
    let mut s = String::from_str("scale='min(");
    let w = u64_to_string(width as u64);
    s.append(w.as_str());
    s.append(",iw)':-2");
    s
}

/// Whether the resolution cap applies to the encode.
pub open spec fn scale_applies(cfg: CompressionConfig) -> bool {
    cfg.compression_mode != Mode::Copy && cfg.max_resolution.enabled && cfg.max_resolution.width
        > 0 && cfg.max_resolution.height > 0
}

/// The main encode argument list: overwrite and quiet-banner flags, the
/// input, the video encoder, rate control, the audio encoder, the
/// resolution cap (never combined with stream-copy), the extra filter
/// tokens, the chosen encoders' extra tokens (skipped under
/// stream-copy), the thread count when set, and the machine-readable
/// progress stream on a side channel.
pub open spec fn encode_args_spec(
    cfg: CompressionConfig,
    search_crf_milli: Option<i64>,
    input: Seq<char>,
) -> Seq<Seq<char>> {
    let venc = video_encoder_spec(cfg);
    let aenc = audio_encoder_spec(cfg);
    seq!["-y"@, "-hide_banner"@, "-i"@, input, "-c:v"@, venc] + rate_control_spec(
        cfg,
        search_crf_milli,
    ) + seq!["-c:a"@, aenc] + (if scale_applies(cfg) {
        seq!["-vf"@, scale_filter_spec(cfg.max_resolution.width)]
    } else {
        Seq::empty()
    }) + concat_tokens(cfg.custom_filters@.map_values(|s: String| s@)) + (if cfg.compression_mode
        != Mode::Copy {
        encoder_tokens(cfg.available_video_encoders@, venc) + encoder_tokens(
            cfg.available_audio_encoders@,
            aenc,
        )
    } else {
        Seq::empty()
    }) + (if cfg.ffmpeg_threads > 0 {
        seq!["-threads"@, dec_str(cfg.ffmpeg_threads as nat)]
    } else {
        Seq::empty()
    }) + seq!["-progress"@, "pipe:2"@]
}

/// Assemble the main encode argument list.
pub fn encode_args(cfg: &CompressionConfig, search_crf_milli: Option<i64>, input: &String) -> (r:
    Vec<String>)
    requires
        cfg.target_crf_milli >= 0,
        match search_crf_milli {
            Some(c) => c >= 0,
            None => true,
        },
    ensures
        views(r@) =~= encode_args_spec(*cfg, search_crf_milli, input@),
{
    let mut args: Vec<String> = Vec::new();
    args.push(String::from_str("-y"));
    args.push(String::from_str("-hide_banner"));
    args.push(String::from_str("-i"));
    args.push(input.clone());
    args.push(String::from_str("-c:v"));
    let venc = video_encoder_of(cfg);
    args.push(venc.clone());
    proof {
        assert(views(args@) =~= seq![
            "-y"@,
            "-hide_banner"@,
            "-i"@,
            input@,
            "-c:v"@,
            video_encoder_spec(*cfg),
        ]);
    }
    match cfg.compression_mode {
        Mode::Bitrate => {
            args.push(String::from_str("-b:v"));
            let mut b = u64_to_string(cfg.target_bitrate as u64);
            proof {
                reveal_strlit("k");
            }
            b.append("k");
            args.push(b);
        },
        Mode::Crf => {
            args.push(String::from_str(crf_mode_flag(&venc)));
            args.push(milli_to_string(cfg.target_crf_milli as u64));
        },
        Mode::Vmaf => {
            args.push(String::from_str(get_crf_arg(venc.as_str())));
            let c: u64 = match search_crf_milli {
                Some(c) => c as u64,
                None => crate::search::DEFAULT_CRF_MILLI as u64,
            };
            args.push(milli_to_string(c));
        },
        _ => {},
    }
    let ghost after_rate = views(args@);
    proof {
        assert(after_rate =~= seq![
            "-y"@,
            "-hide_banner"@,
            "-i"@,
            input@,
            "-c:v"@,
            video_encoder_spec(*cfg),
        ] + rate_control_spec(*cfg, search_crf_milli));
    }
    args.push(String::from_str("-c:a"));
    let aenc = audio_encoder_of(cfg);
    args.push(aenc.clone());
    if cfg.compression_mode != Mode::Copy && cfg.max_resolution.enabled && cfg.max_resolution.width
        > 0 && cfg.max_resolution.height > 0 {
        args.push(String::from_str("-vf"));
        args.push(scale_filter(cfg.max_resolution.width));
    }
    let ghost after_scale = views(args@);
    proof {
        assert(after_scale =~= after_rate + seq!["-c:a"@, audio_encoder_spec(*cfg)] + (if
        scale_applies(*cfg) {
            seq!["-vf"@, scale_filter_spec(cfg.max_resolution.width)]
        } else {
            Seq::<Seq<char>>::empty()
        }));
    }
    append_param_tokens(&mut args, &cfg.custom_filters);
    let ghost after_filters = views(args@);
    proof {
        assert(after_filters =~= after_scale + concat_tokens(
            cfg.custom_filters@.map_values(|s: String| s@),
        ));
    }
    if cfg.compression_mode != Mode::Copy {
        append_encoder_tokens(&mut args, &cfg.available_video_encoders, &venc);
        append_encoder_tokens(&mut args, &cfg.available_audio_encoders, &aenc);
    }
    let ghost after_enc = views(args@);
    proof {
        assert(after_enc =~= after_filters + (if cfg.compression_mode != Mode::Copy {
            encoder_tokens(cfg.available_video_encoders@, video_encoder_spec(*cfg))
                + encoder_tokens(cfg.available_audio_encoders@, audio_encoder_spec(*cfg))
        } else {
            Seq::<Seq<char>>::empty()
        }));
    }
    if cfg.ffmpeg_threads > 0 {
        args.push(String::from_str("-threads"));
        args.push(u64_to_string(cfg.ffmpeg_threads as u64));
    }
    let ghost after_threads = views(args@);
    proof {
        assert(after_threads =~= after_enc + (if cfg.ffmpeg_threads > 0 {
            seq!["-threads"@, dec_str(cfg.ffmpeg_threads as nat)]
        } else {
            Seq::<Seq<char>>::empty()
        }));
    }
    args.push(String::from_str("-progress"));
    args.push(String::from_str("pipe:2"));
    proof {
        assert(views(args@) =~= after_threads + seq!["-progress"@, "pipe:2"@]);
        assert(views(args@) =~= encode_args_spec(*cfg, search_crf_milli, input@));
    }
    args
}

/// The temporary output path: the destination with `.tmp.` and the
/// container format appended.
pub fn temp_output_path(output: &String, format: &String) -> (r: String)
    ensures
        r@ == output@ + ".tmp."@ + format@,
{
    let mut s = output.clone();
    s.append(".tmp.");
    s.append(format.as_str());
    s
}

/// The pass-log prefix used to link the two passes: the temporary
/// output path with `.passlog` appended.
pub fn pass_log_prefix(temp_output: &String) -> (r: String)
    ensures
        r@ == temp_output@ + ".passlog"@,
{
    let mut s = temp_output.clone();
    s.append(".passlog");
    s
}

/// The first pass of a two-pass run: the shared arguments, then the
/// pass marker, the pass-log linkage, no audio, and the null container
/// into the given sink path.
pub fn pass1_args(shared: &Vec<String>, log_prefix: &String, null_sink: &String) -> (r: Vec<
    String,
>)
    ensures
        views(r@) =~= views(shared@) + seq![
            "-pass"@,
            "1"@,
            "-passlogfile"@,
            log_prefix@,
            "-an"@,
            "-f"@,
            "null"@,
            null_sink@,
        ],
{
    let mut args = shared.clone();
    args.push(String::from_str("-pass"));
    args.push(String::from_str("1"));
    args.push(String::from_str("-passlogfile"));
    args.push(log_prefix.clone());
    args.push(String::from_str("-an"));
    args.push(String::from_str("-f"));
    args.push(String::from_str("null"));
    args.push(null_sink.clone());
    proof {
        assert(views(args@) =~= views(shared@) + seq![
            "-pass"@,
            "1"@,
            "-passlogfile"@,
            log_prefix@,
            "-an"@,
            "-f"@,
            "null"@,
            null_sink@,
        ]);
    }
    args
}

/// The second pass: the shared arguments, the pass marker and pass-log
/// linkage, then the temporary output.
pub fn pass2_args(shared: &Vec<String>, log_prefix: &String, temp_output: &String) -> (r: Vec<
    String,
>)
    ensures
        views(r@) =~= views(shared@) + seq![
            "-pass"@,
            "2"@,
            "-passlogfile"@,
            log_prefix@,
            temp_output@,
        ],
{
    let mut args = shared.clone();
    args.push(String::from_str("-pass"));
    args.push(String::from_str("2"));
    args.push(String::from_str("-passlogfile"));
    args.push(log_prefix.clone());
    args.push(temp_output.clone());
    proof {
        assert(views(args@) =~= views(shared@) + seq![
            "-pass"@,
            "2"@,
            "-passlogfile"@,
            log_prefix@,
            temp_output@,
        ]);
    }
    args
}

/// A single-pass run: the shared arguments, then the temporary output.
pub fn single_pass_args(shared: &Vec<String>, temp_output: &String) -> (r: Vec<String>)
    ensures
        views(r@) =~= views(shared@).push(temp_output@),
{
    let mut args = shared.clone();
    args.push(temp_output.clone());
    proof {
        assert(views(args@) =~= views(shared@).push(temp_output@));
    }
    args
}

/// Milliseconds rounded to the nearest whole second, as the trimmed
/// sample windows are addressed.
pub open spec fn round_to_sec(ms: u64) -> nat {
    ((ms + 500) / 1000) as nat
}

/// The sample encode of the parameter search: quiet flags, the window
/// as whole seconds, the input, the video encoder with the candidate
/// parameter under its family's quality flag, no audio, the encoder's
/// extra tokens, and the sample output path.
pub fn sample_encode_args(
    cfg: &CompressionConfig,
    input: &String,
    crf_milli: i64,
    start_ms: u64,
    len_ms: u64,
    sample_output: &String,
) -> (r: Vec<String>)
    requires
        crf_milli >= 0,
        start_ms <= 4611686018427387904,
        len_ms <= 4611686018427387904,
    ensures
        ({
            let venc = if cfg.video_encoder@.len() == 0 {
                "libx264"@
            } else {
                cfg.video_encoder@
            };
            views(r@) =~= seq![
                "-y"@,
                "-hide_banner"@,
                "-v"@,
                "error"@,
                "-ss"@,
                dec_str(round_to_sec(start_ms)),
                "-t"@,
                dec_str(round_to_sec(len_ms)),
                "-i"@,
                input@,
                "-c:v"@,
                venc,
                crf_arg_spec(venc),
                milli_str(crf_milli as nat),
                "-an"@,
            ] + encoder_tokens(cfg.available_video_encoders@, venc) + seq![sample_output@]
        }),
{
    let venc = if cfg.video_encoder.as_str().unicode_len() == 0 {
        String::from_str("libx264")
    } else {
        cfg.video_encoder.clone()
    };
    let mut args: Vec<String> = Vec::new();
    args.push(String::from_str("-y"));
    args.push(String::from_str("-hide_banner"));
    args.push(String::from_str("-v"));
    args.push(String::from_str("error"));
    args.push(String::from_str("-ss"));
    args.push(u64_to_string((start_ms + 500) / 1000));
    args.push(String::from_str("-t"));
    args.push(u64_to_string((len_ms + 500) / 1000));
    args.push(String::from_str("-i"));
    args.push(input.clone());
    args.push(String::from_str("-c:v"));
    args.push(venc.clone());
    args.push(String::from_str(get_crf_arg(venc.as_str())));
    args.push(milli_to_string(crf_milli as u64));
    args.push(String::from_str("-an"));
    proof {
        assert(views(args@) =~= seq![
            "-y"@,
            "-hide_banner"@,
            "-v"@,
            "error"@,
            "-ss"@,
            dec_str(round_to_sec(start_ms)),
            "-t"@,
            dec_str(round_to_sec(len_ms)),
            "-i"@,
            input@,
            "-c:v"@,
            venc@,
            crf_arg_spec(venc@),
            milli_str(crf_milli as nat),
            "-an"@,
        ]);
    }
    append_encoder_tokens(&mut args, &cfg.available_video_encoders, &venc);
    args.push(sample_output.clone());
    proof {
        let vencv = if cfg.video_encoder@.len() == 0 {
            "libx264"@
        } else {
            cfg.video_encoder@
        };
        assert(venc@ == vencv);
        assert(views(args@) =~= seq![
            "-y"@,
            "-hide_banner"@,
            "-v"@,
            "error"@,
            "-ss"@,
            dec_str(round_to_sec(start_ms)),
            "-t"@,
            dec_str(round_to_sec(len_ms)),
            "-i"@,
            input@,
            "-c:v"@,
            vencv,
            crf_arg_spec(vencv),
            milli_str(crf_milli as nat),
            "-an"@,
        ] + encoder_tokens(cfg.available_video_encoders@, vencv) + seq![sample_output@]);
    }
    args
}

} // verus!
