use video_queue::progress::{parse_progress, percentage_of, progress_from_captures};

#[test]
fn full_progress_line_is_read() {
    let line = "out_time_ms=5000000 fps=29.97 speed=1.2x bitrate=4500.0kbits/s";
    let p = parse_progress(line, 10_000_000).unwrap();
    assert_eq!(p.percentage, 5000);
    assert_eq!(p.percentage as f64 / 100.0, 50.0);
    assert_eq!(p.current_time, 5_000_000);
    assert_eq!(p.current_time as f64 / 1_000_000.0, 5.0);
    assert_eq!(p.fps, 29_970);
    assert_eq!(p.fps as f64 / 1000.0, 29.97);
    assert_eq!(p.speed, "1.2x");
    assert_eq!(p.bitrate, "4500.0kbits/s");
}

#[test]
fn line_without_elapsed_time_reports_nothing() {
    for line in [
        "",
        "fps=29.97 speed=1.2x bitrate=4500.0kbits/s",
        "out_time=00:00:05.000000",
        "out_time_us=5000000",
        "out_time_ms=",
        "out_time_ms=abc",
        "out_time_ms =5",
        "OUT_TIME_MS=5",
        "progress=continue",
    ] {
        assert!(parse_progress(line, 10_000_000).is_none(), "for {:?}", line);
    }
}

#[test]
fn missing_fields_take_their_defaults() {
    let p = parse_progress("out_time_ms=2500000\n", 10_000_000).unwrap();
    assert_eq!(p.percentage, 2500);
    assert_eq!(p.current_time, 2_500_000);
    assert_eq!(p.fps, 0);
    assert_eq!(p.speed, "0x");
    assert_eq!(p.bitrate, "0kbits/s");
}

#[test]
fn fields_that_do_not_fit_their_pattern_are_passed_over() {
    let p = parse_progress("out_time_ms=1 fps=... speed=N/A bitrate=N/A", 4).unwrap();
    assert_eq!(p.percentage, 2500);
    assert_eq!(p.fps, 0);
    assert_eq!(p.speed, "0x");
    assert_eq!(p.bitrate, "0kbits/s");
    let p = parse_progress("bitrate=12kbits/s speed=2x fps=1.2.3 out_time_ms=0007", 0).unwrap();
    assert_eq!(p.current_time, 7);
    assert_eq!(p.fps, 0);
    assert_eq!(p.speed, "2x");
    assert_eq!(p.bitrate, "12kbits/s");
}

#[test]
fn first_match_on_the_line_counts() {
    let p = parse_progress("xout_time_ms=10 out_time_ms=20 fps=5 fps=6", 100).unwrap();
    assert_eq!(p.current_time, 10);
    assert_eq!(p.percentage, 1000);
    assert_eq!(p.fps, 5000);
}

#[test]
fn elapsed_time_that_does_not_fit_reports_nothing() {
    assert!(parse_progress("out_time_ms=18446744073709551616", 10).is_none());
    let p = parse_progress("out_time_ms=18446744073709551615", 10).unwrap();
    assert_eq!(p.current_time, u64::MAX);
    assert_eq!(p.percentage, 10000);
}

#[test]
fn percentage_is_clamped_and_zero_without_a_duration() {
    assert_eq!(percentage_of(0, 10), 0);
    assert_eq!(percentage_of(5, 10), 5000);
    assert_eq!(percentage_of(10, 10), 10000);
    assert_eq!(percentage_of(11, 10), 10000);
    assert_eq!(percentage_of(u64::MAX, 1), 10000);
    assert_eq!(percentage_of(5, 0), 0);
    assert_eq!(percentage_of(0, 0), 0);
    assert_eq!(percentage_of(1, 3), 3333);
    assert_eq!(percentage_of(2, 3), 6666);
    assert_eq!(percentage_of(u64::MAX - 1, u64::MAX), 9999);
    assert_eq!(parse_progress("out_time_ms=20000000", 10_000_000).unwrap().percentage, 10000);
    assert_eq!(parse_progress("out_time_ms=20000000", 0).unwrap().percentage, 0);
}

#[test]
fn report_from_captured_fields() {
    let some = |s: &str| Some(s.to_string());
    let p = progress_from_captures(some("5000000"), some("29.97"), some("1.2"), some("4500.0"), 10_000_000)
        .unwrap();
    assert_eq!(p.percentage, 5000);
    assert_eq!(p.current_time, 5_000_000);
    assert_eq!(p.fps, 29_970);
    assert_eq!(p.speed, "1.2x");
    assert_eq!(p.bitrate, "4500.0kbits/s");

    assert!(progress_from_captures(None, some("1"), some("1"), some("1"), 1).is_none());
    assert!(progress_from_captures(some(""), None, None, None, 1).is_none());
    assert!(progress_from_captures(some("1.5"), None, None, None, 1).is_none());
    assert!(progress_from_captures(some("٣"), None, None, None, 1).is_none());

    let p = progress_from_captures(some("+3"), some("."), some(""), None, 0).unwrap();
    assert_eq!(p.current_time, 3);
    assert_eq!(p.percentage, 0);
    assert_eq!(p.fps, 0);
    assert_eq!(p.speed, "x");
    assert_eq!(p.bitrate, "0kbits/s");
}

#[test]
fn report_clone_keeps_every_field() {
    let p = parse_progress("out_time_ms=1 fps=2 speed=3x bitrate=4kbits/s", 2).unwrap();
    let c = p.clone();
    assert_eq!(c.percentage, p.percentage);
    assert_eq!(c.current_time, p.current_time);
    assert_eq!(c.fps, p.fps);
    assert_eq!(c.speed, p.speed);
    assert_eq!(c.bitrate, p.bitrate);
}
