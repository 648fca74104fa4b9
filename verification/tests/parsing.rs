use vidcompress::text::{
    to_chars, chars_to_string, parse_u64, parse_milli, u64_to_string, milli_to_string, split_ws,
    trim,
};
use vidcompress::progress::{
    parse_time_str, ProgressState, is_progress_tick, percent_of, to_upper_half, to_lower_half,
    vmaf_score_from_text, vmaf_score_from_log,
};

fn chars(s: &str) -> Vec<char> {
    to_chars(s)
}

#[test]
fn numerals_round_trip() {
    assert_eq!(chars_to_string(&chars("abc")), "abc");
    assert_eq!(u64_to_string(0), "0");
    assert_eq!(u64_to_string(907), "907");
    assert_eq!(milli_to_string(25000), "25");
    assert_eq!(milli_to_string(25500), "25.5");
    assert_eq!(milli_to_string(25755), "25.755");
    assert_eq!(milli_to_string(25050), "25.05");
    assert_eq!(parse_u64(&chars("907")), Some(907));
    assert_eq!(parse_u64(&chars("9x7")), None);
    assert_eq!(parse_u64(&chars("")), None);
    assert_eq!(parse_milli(&chars("25.5")), Some(25500));
    assert_eq!(parse_milli(&chars("25")), Some(25000));
    assert_eq!(parse_milli(&chars("25.755")), Some(25755));
    // Digits past the third fractional place are dropped.
    assert_eq!(parse_milli(&chars("95.123456")), Some(95123));
    assert_eq!(parse_milli(&chars("bad")), None);
}

#[test]
fn tokens_and_trimming() {
    let toks = split_ws(&chars("  -preset  slow \t-tune film "));
    let words: Vec<String> = toks.iter().map(|t| chars_to_string(t)).collect();
    assert_eq!(words, vec!["-preset", "slow", "-tune", "film"]);
    assert_eq!(chars_to_string(&trim(&chars("  x y\t"))), "x y");
    assert_eq!(chars_to_string(&trim(&chars("   "))), "");
}

#[test]
fn clock_times_read_in_milliseconds() {
    assert_eq!(parse_time_str(&chars("00:01:23.45")), 83450);
    assert_eq!(parse_time_str(&chars("01:00:00")), 3600000);
    assert_eq!(parse_time_str(&chars("1:2:3")), 3723000);
    // Any other shape reads as zero.
    assert_eq!(parse_time_str(&chars("90")), 0);
    assert_eq!(parse_time_str(&chars("00:10")), 0);
}

#[test]
fn progress_lines_update_their_fields() {
    let mut st = ProgressState::new();
    st.read_line(&chars("out_time=00:00:10.5"));
    assert_eq!(st.out_time_ms, 10500);
    st.read_line(&chars("speed=1.25x"));
    assert_eq!(st.speed_milli, 1250);
    st.read_line(&chars("bitrate=2534.6kbits/s"));
    assert_eq!(st.bitrate_milli, 2534600);
    // The microsecond field also carries the position.
    st.read_line(&chars("out_time_us=2500000"));
    assert_eq!(st.out_time_ms, 2500);
    // A line without a known field changes nothing.
    st.read_line(&chars("frame=100"));
    assert_eq!(st.out_time_ms, 2500);
    assert_eq!(st.speed_milli, 1250);
    // A bitrate without the `k` unit reads as zero.
    st.read_line(&chars("bitrate=N/A"));
    assert_eq!(st.bitrate_milli, 0);
    assert!(is_progress_tick(&chars("progress=continue")));
    assert!(!is_progress_tick(&chars("frame=100")));
}

#[test]
fn percent_mapping() {
    assert_eq!(percent_of(30000, 120000), 25);
    assert_eq!(percent_of(120000, 120000), 100);
    assert_eq!(percent_of(500000, 120000), 100);
    assert_eq!(percent_of(10000, 0), 0);
    assert_eq!(to_upper_half(0), 50);
    assert_eq!(to_upper_half(50), 75);
    assert_eq!(to_upper_half(100), 100);
    assert_eq!(to_lower_half(100), 50);
    assert_eq!(to_lower_half(30), 15);
}

#[test]
fn scores_read_from_diagnostic_text() {
    let text = chars("[libvmaf] something\nVMAF score: 95.123456\n");
    assert_eq!(vmaf_score_from_text(&text), Some(95123));
    let alt = chars("[libvmaf @ 0x1] VMAF score = 88.5");
    assert_eq!(vmaf_score_from_text(&alt), Some(88500));
    assert_eq!(vmaf_score_from_text(&chars("no score here")), None);
    // An unreadable figure reads as no score.
    assert_eq!(vmaf_score_from_text(&chars("VMAF score: banana")), None);
    // A figure beyond the metric's range reads as no score.
    assert_eq!(vmaf_score_from_text(&chars("VMAF score: 250.0")), None);
}

#[test]
fn scores_read_from_structured_log() {
    let log = chars(
        "{\"frames\": [], \"pooled_metrics\": {\"vmaf\": {\"min\": 80.1, \"max\": 99.0, \"mean\": 95.25}}}",
    );
    assert_eq!(vmaf_score_from_log(&log), Some(95250));
    assert_eq!(vmaf_score_from_log(&chars("{}")), None);
    // Without a `mean` entry nothing is read.
    let no_mean = chars("{\"pooled_metrics\": {\"vmaf\": {\"min\": 80.1}}}");
    assert_eq!(vmaf_score_from_log(&no_mean), None);
}

#[test]
fn trailing_point_and_empty_fraction_parse() {
    assert_eq!(parse_milli(&chars("5.")), Some(5000));
    assert_eq!(parse_milli(&chars(".5")), None);
    assert_eq!(parse_milli(&chars("")), None);
}
