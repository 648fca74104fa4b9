use vidcompress::probe::{probe_video_info, assemble_probe_info, ProbeError};
use vidcompress::media::{
    Mode, JobStatus, CompressionConfig, MaxResolution, EncoderConfig, ProgressPayload,
    mode_from_str,
};
use vidcompress::scan::{
    is_video_file, categorize_paths, PathEntry, PathKind, scan_entry_info, is_hardware_encoder,
    encoder_display_name, classify_encoder_line, EncoderLine, parse_encoder_listing,
};
use vidcompress::args::{
    encode_args, sample_encode_args, temp_output_path, pass_log_prefix, pass1_args, pass2_args,
    single_pass_args,
};
use vidcompress::vmaf::{
    select_model, parse_resolution, average_milli, escape_path_for_filter, ScoringSession,
    ScoreAttempt, Device, get_cuda_decoder, sample_file_name, is_temp_sample_name,
    attach_search_score, annotate_scored, vmaf_opts, vmaf_filter_cpu, vmaf_args, is_pass_log_name,
    model_search_candidates,
};
use vidcompress::text::{to_chars, chars_to_string};

fn test_config(mode: Mode) -> CompressionConfig {
    CompressionConfig {
        compression_mode: mode,
        target_bitrate: 2500,
        target_crf_milli: 23500,
        target_vmaf_milli: 95000,
        ffmpeg_threads: 4,
        ffprobe_threads: 0,
        max_resolution: MaxResolution { enabled: false, width: 0, height: 0 },
        video_encoder: String::new(),
        audio_encoder: String::new(),
        target_format: "mp4".to_string(),
        available_video_encoders: Vec::new(),
        available_audio_encoders: Vec::new(),
        custom_filters: Vec::new(),
        suffix: String::new(),
        two_pass: false,
        min_bitrate_threshold: 0,
        crf_auto_skip: false,
        crf_auto_skip_threshold: 0,
        enable_vmaf: false,
        vmaf_full_computation: false,
        vmaf_segment_count: 0,
        vmaf_segment_duration: 0,
        vmaf_auto_config: false,
        vmaf_use_cuda: false,
        vmaf_neg: false,
        custom_vmaf_params: Vec::new(),
        vmaf_search_optimization: false,
    }
}

const PROBE_JSON: &str = r#"{
  "streams": [
    {"codec_type": "audio", "codec_name": "aac"},
    {"codec_type": "video", "codec_name": "h264", "width": 1920, "height": 1080}
  ],
  "format": {"size": "123456789", "bit_rate": "5000000", "duration": "60.500000"}
}"#;

#[test]
fn probe_output_reads_into_metadata() {
    let info = probe_video_info(PROBE_JSON, "clip.mp4".to_string(), "/v/clip.mp4".to_string())
        .expect("probe should parse");
    assert_eq!(info.name, "clip.mp4");
    assert_eq!(info.path, "/v/clip.mp4");
    assert_eq!(info.size, 123456789);
    assert_eq!(info.resolution, "1920x1080");
    assert_eq!(info.encoder, "h264");
    assert_eq!(info.bitrate, "5.0 Mbps");
    assert_eq!(info.bitrate_milli, Some(5000000));
    assert_eq!(info.duration_ms, 60500);
    assert_eq!(info.status, JobStatus::Pending);
    assert_eq!(info.progress, 0);
    // A fresh probe exposes no score field.
    assert!(info.vmaf_milli.is_none());
    assert!(info.vmaf_device.is_none());
    assert!(info.vmaf_detail.is_none());
    assert!(info.vmaf_total_segments.is_none());
    assert!(info.vmaf_model.is_none());
}

#[test]
fn probe_errors_name_what_is_missing() {
    let r = probe_video_info("not json", "a".to_string(), "a".to_string());
    assert!(matches!(r, Err(ProbeError::InvalidJson)));
    let r = probe_video_info("{\"streams\": []}", "a".to_string(), "a".to_string());
    assert!(matches!(r, Err(ProbeError::NoFormat)));
    let r = probe_video_info("{\"format\": {}}", "a".to_string(), "a".to_string());
    assert!(matches!(r, Err(ProbeError::NoStreams)));
    let r = probe_video_info(
        "{\"format\": {}, \"streams\": [{\"codec_type\": \"audio\"}]}",
        "a".to_string(),
        "a".to_string(),
    );
    assert!(matches!(r, Err(ProbeError::NoVideoStream)));
}

#[test]
fn bitrate_text_rounds_to_one_decimal() {
    let info = assemble_probe_info(
        "a".to_string(),
        "a".to_string(),
        0,
        640,
        480,
        Some(1550000),
        "h264".to_string(),
        0,
    );
    assert_eq!(info.bitrate, "1.6 Mbps");
    assert_eq!(info.resolution, "640x480");
    let none = assemble_probe_info(
        "a".to_string(),
        "a".to_string(),
        0,
        0,
        0,
        None,
        "h264".to_string(),
        0,
    );
    assert_eq!(none.bitrate, "N/A");
    assert!(none.bitrate_milli.is_none());
}

#[test]
fn video_files_are_judged_by_extension() {
    assert!(is_video_file("/films/movie.mkv"));
    assert!(is_video_file("C:\\films\\Movie.MP4"));
    assert!(is_video_file("clip.webm"));
    assert!(!is_video_file("notes.txt"));
    assert!(!is_video_file("archive.tar.gz"));
    assert!(!is_video_file(".mkv"));
    assert!(!is_video_file("noextension"));
}

#[test]
fn dropped_paths_are_sorted() {
    let entries = vec![
        PathEntry { path: "/a/movie.mp4".to_string(), kind: PathKind::File },
        PathEntry { path: "/b".to_string(), kind: PathKind::Directory },
        PathEntry { path: "/c/readme.txt".to_string(), kind: PathKind::File },
        PathEntry { path: "/d/gone.mkv".to_string(), kind: PathKind::Missing },
        PathEntry { path: "/e/show.avi".to_string(), kind: PathKind::File },
    ];
    let cat = categorize_paths(entries);
    assert_eq!(cat.videos, vec!["/a/movie.mp4", "/e/show.avi"]);
    assert_eq!(cat.directories, vec!["/b"]);
    assert_eq!(cat.invalid, vec!["/c/readme.txt", "/d/gone.mkv"]);
}

#[test]
fn scan_entries_start_as_placeholders() {
    let info = scan_entry_info("a.mp4".to_string(), "/v/a.mp4".to_string(), 42);
    assert_eq!(info.status, JobStatus::Scanning);
    assert_eq!(info.resolution, "...");
    assert_eq!(info.size, 42);
    assert!(info.vmaf_milli.is_none());
}

#[test]
fn encoder_listing_lines_classify() {
    let line = to_chars(" V....D libx264              H.264 / AVC / MPEG-4 AVC");
    match classify_encoder_line(&line) {
        EncoderLine::Video(name, desc) => {
            assert_eq!(chars_to_string(&name), "libx264");
            assert_eq!(chars_to_string(&desc), "H.264 / AVC / MPEG-4 AVC");
        }
        _ => panic!("expected a video encoder line"),
    }
    let audio = to_chars(" A....D aac                  AAC (Advanced Audio Coding)");
    assert!(matches!(classify_encoder_line(&audio), EncoderLine::Audio(_, _)));
    assert!(matches!(classify_encoder_line(&to_chars(" ------")), EncoderLine::Skip));
    assert!(matches!(classify_encoder_line(&to_chars("")), EncoderLine::Skip));
    assert!(matches!(classify_encoder_line(&to_chars("Encoders:")), EncoderLine::Skip));
}

#[test]
fn hardware_encoders_are_marked() {
    assert!(is_hardware_encoder("h264_nvenc"));
    assert!(is_hardware_encoder("hevc_qsv"));
    assert!(!is_hardware_encoder("libx264"));
    assert_eq!(encoder_display_name(&"h264_nvenc".to_string(), true), "h264_nvenc (HW)");
    assert_eq!(encoder_display_name(&"libx264".to_string(), false), "libx264 (CPU)");
}

#[test]
fn bitrate_mode_arguments() {
    let cfg = test_config(Mode::Bitrate);
    let args = encode_args(&cfg, None, &"/v/in.mp4".to_string());
    assert_eq!(
        args,
        vec![
            "-y", "-hide_banner", "-i", "/v/in.mp4", "-c:v", "libx264", "-b:v", "2500k", "-c:a",
            "aac", "-threads", "4", "-progress", "pipe:2",
        ]
    );
}

#[test]
fn fixed_quality_arguments_with_extras() {
    let mut cfg = test_config(Mode::Crf);
    cfg.video_encoder = "libx265".to_string();
    cfg.audio_encoder = "libopus".to_string();
    cfg.custom_filters = vec!["-movflags +faststart".to_string(), "  ".to_string()];
    cfg.available_video_encoders = vec![EncoderConfig {
        name: "x265".to_string(),
        value: "libx265".to_string(),
        visible: true,
        custom_params: vec!["-preset slow".to_string()],
    }];
    cfg.max_resolution = MaxResolution { enabled: true, width: 1280, height: 720 };
    let args = encode_args(&cfg, None, &"in.mkv".to_string());
    assert_eq!(
        args,
        vec![
            "-y", "-hide_banner", "-i", "in.mkv", "-c:v", "libx265", "-crf", "23.5", "-c:a",
            "libopus", "-vf", "scale='min(1280,iw)':-2", "-movflags", "+faststart", "-preset",
            "slow", "-threads", "4", "-progress", "pipe:2",
        ]
    );
}

#[test]
fn stream_copy_adds_no_rate_control_or_scaling() {
    let mut cfg = test_config(Mode::Copy);
    cfg.max_resolution = MaxResolution { enabled: true, width: 1280, height: 720 };
    cfg.ffmpeg_threads = 0;
    let args = encode_args(&cfg, None, &"in.mp4".to_string());
    assert_eq!(
        args,
        vec!["-y", "-hide_banner", "-i", "in.mp4", "-c:v", "copy", "-c:a", "copy", "-progress",
            "pipe:2"]
    );
}

#[test]
fn searched_parameter_lands_in_the_arguments() {
    let cfg = test_config(Mode::Vmaf);
    let args = encode_args(&cfg, Some(26500), &"in.mp4".to_string());
    let pos = args.iter().position(|a| a == "-crf").expect("quality flag");
    assert_eq!(args[pos + 1], "26.5");
    // Without a search result the fallback default is used.
    let fallback = encode_args(&cfg, None, &"in.mp4".to_string());
    let pos = fallback.iter().position(|a| a == "-crf").expect("quality flag");
    assert_eq!(fallback[pos + 1], "23");
}

#[test]
fn two_pass_arguments_link_through_the_pass_log() {
    let cfg = test_config(Mode::Bitrate);
    let shared = encode_args(&cfg, None, &"in.mp4".to_string());
    let temp = temp_output_path(&"out.mp4".to_string(), &"mp4".to_string());
    assert_eq!(temp, "out.mp4.tmp.mp4");
    let prefix = pass_log_prefix(&temp);
    assert_eq!(prefix, "out.mp4.tmp.mp4.passlog");
    let p1 = pass1_args(&shared, &prefix, &"/dev/null".to_string());
    assert_eq!(&p1[shared.len()..], &[
        "-pass", "1", "-passlogfile", "out.mp4.tmp.mp4.passlog", "-an", "-f", "null", "/dev/null",
    ]);
    let p2 = pass2_args(&shared, &prefix, &temp);
    assert_eq!(&p2[shared.len()..], &[
        "-pass", "2", "-passlogfile", "out.mp4.tmp.mp4.passlog", "out.mp4.tmp.mp4",
    ]);
    let single = single_pass_args(&shared, &temp);
    assert_eq!(single.last().map(|s| s.as_str()), Some("out.mp4.tmp.mp4"));
}

#[test]
fn sample_encode_trims_by_whole_seconds_without_audio() {
    let cfg = test_config(Mode::Vmaf);
    let args = sample_encode_args(
        &cfg,
        &"in.mp4".to_string(),
        26500,
        30400,
        20000,
        &"/tmp/sample.mp4".to_string(),
    );
    assert_eq!(
        args,
        vec![
            "-y", "-hide_banner", "-v", "error", "-ss", "30", "-t", "20", "-i", "in.mp4", "-c:v",
            "libx264", "-crf", "26.5", "-an", "/tmp/sample.mp4",
        ]
    );
}

#[test]
fn model_follows_resolution_and_variant() {
    assert_eq!(select_model(1920, 1080, false), "vmaf_v0.6.1.json");
    assert_eq!(select_model(3840, 2160, false), "vmaf_4k_v0.6.1.json");
    assert_eq!(select_model(1920, 1080, true), "vmaf_v0.6.1neg.json");
    assert_eq!(select_model(2160, 3840, true), "vmaf_4k_v0.6.1neg.json");
    // The threshold is the long edge beyond 2560.
    assert_eq!(select_model(2560, 1440, false), "vmaf_v0.6.1.json");
    assert_eq!(parse_resolution("1920x1080"), (1920, 1080));
    assert_eq!(parse_resolution("garbage"), (0, 0));
}

#[test]
fn session_falls_back_to_software_once() {
    let mut s = ScoringSession::new(true);
    assert_eq!(s.next_attempt(false), ScoreAttempt::TryCuda);
    // Hardware fails once: no further hardware attempts.
    s.record_cuda(None);
    assert_eq!(s.next_attempt(false), ScoreAttempt::TryCpu);
    s.record_cpu(Some(90000));
    assert_eq!(s.next_attempt(false), ScoreAttempt::TryCpu);
    s.record_cpu(None);
    // The failed segment is simply omitted from the average.
    s.record_cpu(Some(80000));
    assert_eq!(s.final_score(), Some(85000));
    assert_eq!(s.device, Device::Cpu);
    // Cancellation stops the session.
    assert_eq!(s.next_attempt(true), ScoreAttempt::Abort);
}

#[test]
fn empty_session_yields_no_score() {
    let s = ScoringSession::new(false);
    assert_eq!(s.final_score(), None);
    assert_eq!(average_milli(&vec![90000, 80000]), Some(85000));
    assert_eq!(average_milli(&Vec::new()), None);
}

#[test]
fn filter_paths_are_escaped() {
    let path = to_chars("C:\\models\\vmaf.json");
    let escaped = escape_path_for_filter(&path);
    assert_eq!(chars_to_string(&escaped), "C\\\\\\:/models/vmaf.json");
}

#[test]
fn hardware_decoders_map_by_codec() {
    assert_eq!(get_cuda_decoder("h264"), Some("h264_cuvid"));
    assert_eq!(get_cuda_decoder("hevc"), Some("hevc_cuvid"));
    assert_eq!(get_cuda_decoder("mpeg2video"), Some("mpeg2_cuvid"));
    assert_eq!(get_cuda_decoder("prores"), None);
}

#[test]
fn temporary_names_are_recognized() {
    let name = sample_file_name(17, 26500, &"mkv".to_string());
    assert_eq!(name, "vmaf_sample_17_26.mkv");
    assert!(is_temp_sample_name(&to_chars(&name)));
    assert!(!is_temp_sample_name(&to_chars("movie.mkv")));
}

#[test]
fn status_labels_match_the_channel() {
    assert_eq!(JobStatus::WaitingForVmaf.label(), "Waiting for VMAF");
    assert_eq!(JobStatus::ProcessingPass1.label(), "Processing (Pass 1/2)");
    assert_eq!(JobStatus::FoundCrf(25500).label(), "Found CRF 26");
    assert_eq!(JobStatus::Skipped.label(), "Skipped");
}

#[test]
fn mode_names_parse() {
    assert_eq!(mode_from_str("copy"), Mode::Copy);
    assert_eq!(mode_from_str("bitrate"), Mode::Bitrate);
    assert_eq!(mode_from_str("crf"), Mode::Crf);
    assert_eq!(mode_from_str("vmaf"), Mode::Vmaf);
    // Unknown modes degrade: no rate-control arguments are added.
    assert_eq!(mode_from_str("lossless"), Mode::Other);
    let mut cfg = test_config(Mode::Other);
    cfg.ffmpeg_threads = 0;
    let args = encode_args(&cfg, None, &"in.mp4".to_string());
    assert_eq!(
        args,
        vec!["-y", "-hide_banner", "-i", "in.mp4", "-c:v", "libx264", "-c:a", "aac", "-progress",
            "pipe:2"]
    );
}

#[test]
fn done_without_scoring_exposes_no_score_fields() {
    // A job that completes without quality scoring hands the freshly
    // probed snapshot through untouched: no score field is set.
    let info = probe_video_info(PROBE_JSON, "clip.mp4".to_string(), "/v/clip.mp4".to_string())
        .expect("probe should parse");
    let payload = ProgressPayload::done("/v/clip.mp4".to_string(), Some(info));
    assert_eq!(payload.progress, 100);
    assert_eq!(payload.status, JobStatus::Done);
    let out = payload.output_info.expect("snapshot");
    assert!(out.vmaf_milli.is_none());
    assert!(out.vmaf_device.is_none());
    assert!(out.vmaf_detail.is_none());
    assert!(out.vmaf_total_segments.is_none());
    assert!(out.vmaf_model.is_none());
}

#[test]
fn skipped_payload_reports_the_original_metadata() {
    let info = probe_video_info(PROBE_JSON, "clip.mp4".to_string(), "/v/clip.mp4".to_string())
        .expect("probe should parse");
    let br = info.bitrate_milli.unwrap();
    let payload = ProgressPayload::skipped("/v/clip.mp4".to_string(), br, Some(info));
    assert_eq!(payload.status, JobStatus::Skipped);
    assert_eq!(payload.bitrate_milli, 5000000);
    assert_eq!(payload.output_info.unwrap().bitrate, "5.0 Mbps");
}

#[test]
fn search_score_attaches_to_the_snapshot() {
    let info = probe_video_info(PROBE_JSON, "clip.mp4".to_string(), "/v/clip.mp4".to_string())
        .expect("probe should parse");
    let out = attach_search_score(info, 95250, false, false);
    assert_eq!(out.vmaf_milli, Some(95250));
    assert_eq!(out.vmaf_device.as_deref(), Some("CPU"));
    // The model follows the snapshot's own resolution.
    assert_eq!(out.vmaf_model.as_deref(), Some("vmaf_v0.6.1.json"));
    assert_eq!(out.resolution, "1920x1080");
}

#[test]
fn scoring_outcome_annotates_the_snapshot() {
    let info = probe_video_info(PROBE_JSON, "clip.mp4".to_string(), "/v/clip.mp4".to_string())
        .expect("probe should parse");
    let mut session = ScoringSession::new(false);
    session.record_cpu(Some(90000));
    session.record_cpu(Some(80000));
    let out = annotate_scored(info, &session, "vmaf_v0.6.1.json", 2);
    assert_eq!(out.vmaf_milli, Some(85000));
    assert_eq!(out.vmaf_detail.as_deref(), Some(&[90000u64, 80000][..]));
    assert_eq!(out.vmaf_total_segments, Some(2));
    assert_eq!(out.vmaf_device.as_deref(), Some("CPU"));
}

#[test]
fn metric_options_and_filter_compose() {
    let model = to_chars("/usr/share/model/vmaf_v0.6.1.json");
    let escaped = escape_path_for_filter(&model);
    let params = vec!["n_threads=4".to_string(), "   ".to_string()];
    let opts = vmaf_opts(&escaped, None, &params);
    assert_eq!(
        chars_to_string(&opts),
        "model='path=/usr/share/model/vmaf_v0.6.1.json':n_threads=4"
    );
    let filter = vmaf_filter_cpu(&opts);
    assert!(filter.starts_with("[0:v]setpts=PTS-STARTPTS"));
    assert!(filter.ends_with("libvmaf=model='path=/usr/share/model/vmaf_v0.6.1.json':n_threads=4"));
    // The search scores a pre-trimmed sample: only the reference is
    // windowed.
    let args = vmaf_args(
        false,
        &"/tmp/sample.mp4".to_string(),
        &"in.mp4".to_string(),
        None,
        None,
        Some((30, 20)),
        &filter,
    );
    assert_eq!(&args[..7], &["-hide_banner", "-threads", "4", "-v", "info", "-i", "/tmp/sample.mp4"]);
    let ipos = args.iter().rposition(|a| a == "-i").unwrap();
    assert_eq!(&args[ipos - 4..=ipos + 1], &["-ss", "30", "-t", "20", "-i", "in.mp4"]);
    assert!(is_pass_log_name(
        &to_chars("out.mp4.tmp.mp4.passlog-0.log"),
        &to_chars("out.mp4.tmp.mp4.passlog"),
    ));
    assert!(!is_pass_log_name(&to_chars("other.log"), &to_chars("out.mp4.tmp.mp4.passlog")));
}

#[test]
fn model_fallback_locations_are_listed() {
    let c = model_search_candidates(&"vmaf_v0.6.1.json".to_string());
    assert_eq!(c.len(), 4);
    assert_eq!(c[2], "/usr/share/model/vmaf_v0.6.1.json");
    assert!(c[0].ends_with("vmaf_v0.6.1.json"));
}

#[test]
fn encoder_listing_splits_video_and_audio() {
    let text = to_chars(
        "Encoders:\n ------\n V....D libx264  H.264 encoder\n A....D aac  AAC encoder\n V....D libx265  H.265 encoder\n garbage\n",
    );
    let listing = parse_encoder_listing(&text);
    let names: Vec<&str> = listing.video.iter().map(|e| e.name.as_str()).collect();
    assert_eq!(names, vec!["libx264", "libx265"]);
    assert_eq!(listing.video[0].description, "H.264 encoder");
    let audio: Vec<&str> = listing.audio.iter().map(|e| e.name.as_str()).collect();
    assert_eq!(audio, vec!["aac"]);
}
