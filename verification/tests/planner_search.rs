use vidcompress::segments::{plan_segments, SampleWindowConfig, Segment};
use vidcompress::search::{
    interpolate_crf, get_crf_range, get_crf_arg, CrfSearch, SearchStep, Sample,
};

fn windows(auto: bool, count: u32, len_ms: u64) -> SampleWindowConfig {
    SampleWindowConfig { auto_size: auto, count, len_ms }
}

#[test]
fn short_video_yields_one_full_segment() {
    let cfg = windows(false, 3, 10000);
    let segs = plan_segments(15000, &cfg, 12345);
    assert_eq!(segs.len(), 1);
    assert_eq!(segs[0].start_ms, 0);
    assert_eq!(segs[0].len_ms, 15000);
}

#[test]
fn very_short_video_yields_one_full_segment() {
    let cfg = windows(true, 0, 0);
    let segs = plan_segments(1, &cfg, 7);
    assert_eq!(segs.len(), 1);
    assert_eq!(segs[0].start_ms, 0);
    assert_eq!(segs[0].len_ms, 1);
}

fn assert_all_inside(segs: &Vec<Segment>, duration_ms: u64) {
    for s in segs {
        assert!(s.start_ms + s.len_ms <= duration_ms);
    }
}

#[test]
fn planned_segments_stay_inside_video() {
    for seed in [0u64, 1, 99, 123456789] {
        let manual = windows(false, 3, 10000);
        let segs = plan_segments(120000, &manual, seed);
        assert_eq!(segs.len(), 3);
        assert_all_inside(&segs, 120000);
        for s in &segs {
            assert_eq!(s.len_ms, 10000);
        }

        let auto = windows(true, 0, 0);
        let segs2 = plan_segments(3600000, &auto, seed);
        // One window per twelve minutes of video: an hour takes five.
        assert_eq!(segs2.len(), 5);
        assert_all_inside(&segs2, 3600000);
        for s in &segs2 {
            assert_eq!(s.len_ms, 20000);
        }
    }
}

#[test]
fn clamped_window_length_still_fits() {
    // Requested windows longer than the video are clamped to it.
    let cfg = windows(false, 2, 600000);
    let segs = plan_segments(30000, &cfg, 5);
    assert_eq!(segs.len(), 2);
    assert_all_inside(&segs, 30000);
    for s in &segs {
        assert_eq!(s.len_ms, 30000);
        assert_eq!(s.start_ms, 0);
    }
}

#[test]
fn interpolation_hits_exact_midpoint() {
    // Samples (20, 80.0) and (30, 60.0) with target 70.0 predict 25.0.
    let samples = vec![
        Sample { crf_milli: 20000, score_milli: 80000 },
        Sample { crf_milli: 30000, score_milli: 60000 },
    ];
    assert_eq!(interpolate_crf(&samples, 70000), 25000);
}

#[test]
fn interpolation_order_does_not_matter() {
    let samples = vec![
        Sample { crf_milli: 30000, score_milli: 60000 },
        Sample { crf_milli: 20000, score_milli: 80000 },
    ];
    assert_eq!(interpolate_crf(&samples, 70000), 25000);
}

#[test]
fn flat_bracket_answers_parameter_midpoint() {
    // A bracketing pair whose scores differ by less than a tenth of a
    // point answers the midpoint of the two parameters.
    let samples = vec![
        Sample { crf_milli: 20000, score_milli: 70050 },
        Sample { crf_milli: 30000, score_milli: 70000 },
    ];
    assert_eq!(interpolate_crf(&samples, 70020), 25000);
}

#[test]
fn too_few_samples_answer_the_default() {
    let samples = vec![Sample { crf_milli: 20000, score_milli: 80000 }];
    assert_eq!(interpolate_crf(&samples, 70000), 23000);
}

#[test]
fn encoder_families_have_their_ranges() {
    assert_eq!(get_crf_range("libx264"), (18000, 46000));
    assert_eq!(get_crf_range("libx265"), (18000, 46000));
    assert_eq!(get_crf_range("libsvtav1"), (18000, 54000));
    assert_eq!(get_crf_range("h264_nvenc"), (18000, 42000));
    assert_eq!(get_crf_range("libvpx-vp9"), (18000, 42000));
    assert_eq!(get_crf_range("mpeg4"), (1000, 50000));
}

#[test]
fn encoder_families_have_their_flags() {
    assert_eq!(get_crf_arg("h264_nvenc"), "-cq");
    assert_eq!(get_crf_arg("libx264"), "-crf");
    assert_eq!(get_crf_arg("libsvtav1"), "-crf");
    assert_eq!(get_crf_arg("mpeg4"), "-q:v");
}

/// A made-up monotone quality curve for driving the search in tests.
fn fake_score(crf_milli: i64) -> i64 {
    // Score falls one point per two points of parameter from 105 at 0.
    105000 - crf_milli / 2
}

#[test]
fn search_never_leaves_the_family_range() {
    let mut search = CrfSearch::new("libx264", 93000);
    let (lo, hi) = (search.min_crf, search.max_crf);
    assert_eq!((lo, hi), (18000, 46000));
    let mut probes = 0;
    let result = loop {
        match search.next_step() {
            SearchStep::Measure(c) => {
                assert!(lo <= c && c <= hi);
                probes += 1;
                assert!(probes <= 10);
                search.record(Some(fake_score(c)));
            }
            SearchStep::Conclude => break search.result(),
        }
    };
    assert!(lo <= result.crf_milli && result.crf_milli <= hi);
    // The curve meets the target inside the range, so the result does.
    assert!(result.score_milli >= 93000 - 500);
}

#[test]
fn search_accepts_midpoint_when_close() {
    // Midpoint of [18, 46] is 32; make its score land within half a
    // point of the target so it is accepted on the spot.
    let target = fake_score(32000);
    let mut search = CrfSearch::new("libx264", target);
    match search.next_step() {
        SearchStep::Measure(c) => {
            assert_eq!(c, 32000);
            search.record(Some(fake_score(c)));
        }
        SearchStep::Conclude => panic!("expected a probe"),
    }
    match search.next_step() {
        SearchStep::Measure(_) => panic!("expected the search to conclude"),
        SearchStep::Conclude => {}
    }
    let r = search.result();
    assert_eq!(r.crf_milli, 32000);
    assert_eq!(r.score_milli, target);
}

#[test]
fn search_without_measurements_answers_range_midpoint() {
    let mut search = CrfSearch::new("libx264", 95000);
    let result = loop {
        match search.next_step() {
            SearchStep::Measure(_) => search.record(None),
            SearchStep::Conclude => break search.result(),
        }
    };
    assert_eq!(result.crf_milli, 32000);
    assert_eq!(result.score_milli, 0);
}

#[test]
fn search_prefers_meeting_the_target() {
    let mut search = CrfSearch::new("libx264", 90000);
    let result = loop {
        match search.next_step() {
            SearchStep::Measure(c) => search.record(Some(fake_score(c))),
            SearchStep::Conclude => break search.result(),
        }
    };
    // The returned sample meets the target: quality is not given away.
    assert!(result.score_milli >= 90000);
}
