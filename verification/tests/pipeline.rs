use vidcompress::jobs::{
    should_bypass, start_action, StartAction, search_tick, SearchTick, auto_skip_tick,
    verify_verdict, VerifyError, publish_plan, failure_status, finish_action, FinishAction,
};
use vidcompress::media::{Mode, JobStatus};
use vidcompress::search::{CrfSearch, Sample};
use vidcompress::scheduler::{SchedulerState, QualityJob};
use vidcompress::registry::{ProcessRegistry, CancelSet};

use vidcompress::media::{CompressionConfig, MaxResolution};

fn test_config(mode: Mode) -> CompressionConfig {
    CompressionConfig {
        compression_mode: mode,
        target_bitrate: 2500,
        target_crf_milli: 23000,
        target_vmaf_milli: 95000,
        ffmpeg_threads: 0,
        ffprobe_threads: 0,
        max_resolution: MaxResolution { enabled: false, width: 0, height: 0 },
        video_encoder: String::new(),
        audio_encoder: String::new(),
        target_format: "mp4".to_string(),
        available_video_encoders: Vec::new(),
        available_audio_encoders: Vec::new(),
        custom_filters: Vec::new(),
        suffix: String::new(),
        two_pass: false,
        min_bitrate_threshold: 0,
        crf_auto_skip: false,
        crf_auto_skip_threshold: 0,
        enable_vmaf: false,
        vmaf_full_computation: false,
        vmaf_segment_count: 0,
        vmaf_segment_duration: 0,
        vmaf_auto_config: false,
        vmaf_use_cuda: false,
        vmaf_neg: false,
        custom_vmaf_params: Vec::new(),
        vmaf_search_optimization: false,
    }
}

#[test]
fn bitrate_bypass_skips_low_bitrate_input() {
    // Input at 500 kbps under an 800 kbps floor: the job is skipped.
    assert!(should_bypass(Mode::Bitrate, 800, Some(500000)));
    assert_eq!(start_action(Mode::Bitrate, 800, Some(500000)), StartAction::SkipCopy);
    // At or above the floor the job encodes.
    assert!(!should_bypass(Mode::Bitrate, 800, Some(900000)));
    assert_eq!(start_action(Mode::Bitrate, 800, Some(900000)), StartAction::Encode);
    // A zero floor disables the check.
    assert!(!should_bypass(Mode::Bitrate, 0, Some(500000)));
    // Other modes never bypass.
    assert!(!should_bypass(Mode::Crf, 800, Some(500000)));
    // An unknown input bitrate never bypasses.
    assert!(!should_bypass(Mode::Bitrate, 800, None));
    // Score-guided jobs search first.
    assert_eq!(start_action(Mode::Vmaf, 0, Some(900000)), StartAction::RunSearch);
}

#[test]
fn cancellation_before_any_probe_aborts_the_search() {
    let mut search = CrfSearch::new("libx264", 95000);
    // Cancellation is polled before every subprocess spawn: a cancelled
    // job never issues one.
    assert_eq!(search_tick(&mut search, true), SearchTick::Abort);
    assert_eq!(search.samples.len(), 0);
    // Without cancellation the first probe is issued.
    match search_tick(&mut search, false) {
        SearchTick::Measure(c) => assert_eq!(c, 32000),
        other => panic!("expected a probe, got {:?}", matches!(other, SearchTick::Abort)),
    }
}

#[test]
fn sustained_high_bitrate_triggers_auto_skip() {
    // Eleven consecutive over-threshold ticks in the early window
    // trigger the give-up; the input runs 2000 kbps against a 100%
    // threshold and the output reads 3000 kbps.
    let mut count: i64 = 0;
    let mut triggered = false;
    for _ in 0..11 {
        let (c, t) = auto_skip_tick(count, true, 10000, 600000, 3000000, Some(2000000), 100);
        count = c;
        triggered = t;
    }
    assert!(triggered);
    assert_eq!(count, 11);
}

#[test]
fn auto_skip_counter_dips_without_reset() {
    let mut count: i64 = 0;
    for _ in 0..3 {
        let (c, _) = auto_skip_tick(count, true, 10000, 600000, 3000000, Some(2000000), 100);
        count = c;
    }
    assert_eq!(count, 3);
    // One quiet tick decrements — it does not reset.
    let (c, t) = auto_skip_tick(count, true, 10000, 600000, 1000000, Some(2000000), 100);
    assert_eq!(c, 2);
    assert!(!t);
}

#[test]
fn auto_skip_sleeps_outside_the_early_window() {
    // Too early.
    assert_eq!(auto_skip_tick(5, true, 2000, 600000, 9000000, Some(1000), 100), (5, false));
    // Too late: past thirty seconds and past a fifth of the video.
    assert_eq!(auto_skip_tick(5, true, 200000, 600000, 9000000, Some(1000), 100), (5, false));
    // Disabled.
    assert_eq!(auto_skip_tick(5, false, 10000, 600000, 9000000, Some(1000), 100), (5, false));
}

#[test]
fn verification_judges_the_artifact() {
    assert_eq!(verify_verdict(0, true), Err(VerifyError::EmptyFile));
    assert_eq!(verify_verdict(1024, false), Err(VerifyError::DecodeFailed));
    assert_eq!(verify_verdict(1024, true), Ok(()));
}

#[test]
fn publish_and_failure_classification() {
    let plan = publish_plan(false, true);
    assert!(plan.create_dir);
    assert!(plan.remove_existing);
    assert_eq!(failure_status(true), JobStatus::Cancelled);
    assert_eq!(failure_status(false), JobStatus::Error);
}

#[test]
fn quality_hand_off_follows_the_mode() {
    assert!(matches!(finish_action(Mode::Vmaf, false), FinishAction::AttachSearchScore));
    assert!(matches!(finish_action(Mode::Crf, true), FinishAction::EnqueueScoring));
    assert!(matches!(finish_action(Mode::Crf, false), FinishAction::PlainDone));
    assert!(matches!(finish_action(Mode::Copy, false), FinishAction::PlainDone));
}

fn quality_job(key: &str) -> QualityJob {
    QualityJob {
        key: key.to_string(),
        reference_path: key.to_string(),
        distorted_path: format!("{}.out.mp4", key),
        duration_ms: 60000,
        config: test_config(Mode::Crf),
        output_info: None,
    }
}

#[test]
fn scheduler_runs_one_job_at_a_time_in_order() {
    let mut s = SchedulerState::new();
    s.enqueue(quality_job("a.mp4"));
    s.enqueue(quality_job("b.mp4"));
    s.enqueue(quality_job("c.mp4"));

    // Exactly one running marker after a dispatch.
    let first = s.try_dispatch().expect("first dispatch");
    assert_eq!(first.key, "a.mp4");
    assert_eq!(s.running.as_deref(), Some("a.mp4"));
    // While one runs, nothing else starts.
    assert!(s.try_dispatch().is_none());
    assert_eq!(s.running.as_deref(), Some("a.mp4"));

    s.complete();
    assert!(s.running.is_none());
    let second = s.try_dispatch().expect("second dispatch");
    assert_eq!(second.key, "b.mp4");

    s.complete();
    let third = s.try_dispatch().expect("third dispatch");
    assert_eq!(third.key, "c.mp4");
    s.complete();
    assert!(s.try_dispatch().is_none());
}

#[test]
fn cancelling_a_queued_job_removes_it_before_it_starts() {
    let mut s = SchedulerState::new();
    s.enqueue(quality_job("a.mp4"));
    s.enqueue(quality_job("b.mp4"));
    assert!(s.cancel_queued(&"b.mp4".to_string()));
    assert!(!s.cancel_queued(&"b.mp4".to_string()));
    let first = s.try_dispatch().expect("dispatch");
    assert_eq!(first.key, "a.mp4");
    s.complete();
    assert!(s.try_dispatch().is_none());
}

#[test]
fn history_keeps_the_newest_fifty() {
    let mut s = SchedulerState::new();
    for i in 0..55i64 {
        s.record_sample(Sample { crf_milli: i, score_milli: 0 });
    }
    assert_eq!(s.crf_history.len(), 50);
    assert_eq!(s.crf_history[0].crf_milli, 5);
    assert_eq!(s.crf_history[49].crf_milli, 54);
    s.clear_history();
    assert_eq!(s.crf_history.len(), 0);
}

#[test]
fn registry_tracks_one_pid_per_key() {
    let mut reg = ProcessRegistry::new();
    let key = "a.mp4".to_string();
    reg.insert(&key, 100);
    assert_eq!(reg.get(&key), Some(100));
    // A later insert under the same key replaces the record.
    reg.insert(&key, 200);
    assert_eq!(reg.get(&key), Some(200));
    reg.remove(&key);
    assert_eq!(reg.get(&key), None);
    // Removing an absent key is a no-op.
    reg.remove(&key);
    assert_eq!(reg.get(&key), None);
}

#[test]
fn cancel_set_marks_are_idempotent() {
    let mut set = CancelSet::new();
    let key = "a.mp4".to_string();
    assert!(!set.contains(&key));
    set.insert(&key);
    set.insert(&key);
    assert!(set.contains(&key));
    // The first unmark reports the mark; the second is a no-op.
    assert!(set.remove(&key));
    assert!(!set.remove(&key));
    assert!(!set.contains(&key));
    set.insert(&key);
    set.clear();
    assert!(!set.contains(&key));
}
