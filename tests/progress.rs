use ffmpeg_session::{Progress, ProgressParser};

#[test]
fn size_then_frame_emits_one_record() {
    let mut p = ProgressParser::new();
    let out = p.feed(b"total_size=12345\nprogress=continue\n");
    assert_eq!(out, vec![Progress { total_size: Some(12345) }]);
}

#[test]
fn unknown_key_changes_nothing() {
    let mut p = ProgressParser::new();
    assert!(p.feed(b"total_size=7\n").is_empty());
    assert!(p.feed(b"out_time_us=1000\nbitrate=N/A\nnot a pair\n").is_empty());
    let out = p.feed(b"progress=continue\n");
    assert_eq!(out, vec![Progress { total_size: Some(7) }]);
}

#[test]
fn consecutive_frames_are_empty() {
    let mut p = ProgressParser::new();
    let out = p.feed(b"progress=continue\nprogress=end\n");
    assert_eq!(out, vec![Progress { total_size: None }, Progress { total_size: None }]);
}

#[test]
fn frame_resets_record() {
    let mut p = ProgressParser::new();
    let out = p.feed(b"total_size=1\nprogress=continue\nprogress=continue\n");
    assert_eq!(out, vec![Progress { total_size: Some(1) }, Progress::new()]);
}

#[test]
fn bytes_split_across_feeds() {
    let mut p = ProgressParser::new();
    assert!(p.feed(b"total_si").is_empty());
    assert!(p.feed(b"ze=42\r").is_empty());
    assert!(p.feed(b"\nprogr").is_empty());
    let out = p.feed(b"ess=end\n");
    assert_eq!(out, vec![Progress { total_size: Some(42) }]);
}

#[test]
fn crlf_line_ends() {
    let mut p = ProgressParser::new();
    let out = p.feed(b"total_size=5\r\nprogress=continue\r\n");
    assert_eq!(out, vec![Progress { total_size: Some(5) }]);
}

#[test]
fn bad_number_is_skipped() {
    let mut p = ProgressParser::new();
    let out = p.feed(b"total_size=9\ntotal_size=N/A\ntotal_size=\ntotal_size=-3\nprogress=continue\n");
    assert_eq!(out, vec![Progress { total_size: Some(9) }]);
}

#[test]
fn number_limits() {
    let mut p = ProgressParser::new();
    let out = p.feed(b"total_size=18446744073709551615\nprogress=a\ntotal_size=18446744073709551616\nprogress=b\n");
    assert_eq!(out, vec![Progress { total_size: Some(u64::MAX) }, Progress { total_size: None }]);
}

#[test]
fn plus_sign_and_zeros() {
    let mut p = ProgressParser::new();
    let out = p.feed(b"total_size=+0012\nprogress=x\ntotal_size=+\nprogress=y\n");
    assert_eq!(out, vec![Progress { total_size: Some(12) }, Progress { total_size: None }]);
}

#[test]
fn value_may_hold_equals() {
    let mut p = ProgressParser::new();
    let out = p.feed(b"total_size=1=2\nprogress==\n");
    assert_eq!(out, vec![Progress { total_size: None }]);
}

#[test]
fn finish_applies_last_line() {
    let mut p = ProgressParser::new();
    assert!(p.feed(b"total_size=3\nprogress=end").is_empty());
    assert_eq!(p.finish(), Some(Progress { total_size: Some(3) }));
    assert_eq!(p.finish(), None);
}

#[test]
fn empty_input_emits_nothing() {
    let mut p = ProgressParser::new();
    assert!(p.feed(b"").is_empty());
    assert!(p.feed(b"\n\n").is_empty());
    assert_eq!(p.finish(), None);
}
