use video_queue::encoder::EncodingSettings;
use video_queue::invoker::{
    encode_video, is_whitespace, join_lines, trim_line, EncodeAction, EncodeError, EncodeEvent,
    EncodeRun, LOG_LINES,
};

fn diagnostic(line: &str) -> EncodeEvent {
    EncodeEvent::Diagnostic { line: line.to_string() }
}

#[test]
fn white_space_is_what_the_standard_library_says() {
    for n in 0..=0x10FFFFu32 {
        if let Some(c) = char::from_u32(n) {
            assert_eq!(is_whitespace(c), c.is_whitespace(), "for U+{:04X}", n);
        }
    }
}

#[test]
fn trim_line_agrees_with_the_standard_trim() {
    for line in [
        "",
        " ",
        "\n",
        "a",
        " a",
        "a ",
        "  a b  ",
        "\t frame=  10 fps=0.0 \r\n",
        "\u{3000}wide\u{2003}space\u{00A0}",
        " \n\t ",
        "x\u{200B}",
    ] {
        assert_eq!(trim_line(line), line.trim(), "for {:?}", line);
    }
}

#[test]
fn lines_are_joined_with_line_breaks() {
    assert_eq!(join_lines(&Vec::new()), "");
    assert_eq!(join_lines(&vec!["a".to_string()]), "a");
    assert_eq!(join_lines(&vec!["a".to_string(), "".to_string(), "b".to_string()]), "a\n\nb");
}

#[test]
fn run_starts_with_the_command_and_an_empty_log() {
    let mut settings = EncodingSettings::default();
    settings.resolution = Some((640, 360));
    let (run, args) = EncodeRun::start("in.mkv", "out.mp4", &settings, "x h264_qsv y", 9);
    assert_eq!(run.total_duration, 9);
    assert!(run.log.is_empty());
    let expected: Vec<String> = [
        "-i", "in.mkv", "-y", "-c:v", "h264_qsv", "-pix_fmt", "yuv420p", "-vf", "scale=640:360",
        "-preset", "medium", "-c:a", "aac", "-progress", "pipe:1", "out.mp4",
    ]
    .iter()
    .map(|s| s.to_string())
    .collect();
    assert_eq!(args, expected);
}

#[test]
fn output_lines_are_reported_where_they_carry_progress() {
    let mut run = EncodeRun { total_duration: 10_000_000, log: Vec::new() };
    let line = "out_time_ms=5000000 fps=29.97 speed=1.2x bitrate=4500.0kbits/s\n".to_string();
    match encode_video(&mut run, EncodeEvent::Output { line }) {
        EncodeAction::Report { progress } => {
            assert_eq!(progress.percentage, 5000);
            assert_eq!(progress.fps, 29_970);
        }
        other => panic!("unexpected action {:?}", other),
    }
    let line = "frame=100\n".to_string();
    assert!(matches!(encode_video(&mut run, EncodeEvent::Output { line }), EncodeAction::Nothing));
    assert!(run.log.is_empty());
    assert_eq!(run.total_duration, 10_000_000);
}

#[test]
fn diagnostic_lines_are_trimmed_logged_and_the_last_twenty_kept() {
    assert_eq!(LOG_LINES, 20);
    let mut run = EncodeRun { total_duration: 0, log: Vec::new() };
    for n in 0..45 {
        match encode_video(&mut run, diagnostic(&format!("  line {} \n", n))) {
            EncodeAction::Log { line } => assert_eq!(line, format!("line {}", n)),
            other => panic!("unexpected action {:?}", other),
        }
        let first = if n >= 20 { n - 19 } else { 0 };
        let expected: Vec<String> = (first..n + 1).map(|k| format!("line {}", k)).collect();
        assert_eq!(run.log, expected);
    }
    assert_eq!(run.log.len(), 20);
    assert_eq!(run.log[0], "line 25");
    assert_eq!(run.log[19], "line 44");
}

#[test]
fn exit_with_success_ends_well() {
    let mut run = EncodeRun { total_duration: 0, log: Vec::new() };
    encode_video(&mut run, diagnostic("warning"));
    let exit = EncodeEvent::Exited { success: true, status: "exit status: 0".to_string() };
    assert!(matches!(encode_video(&mut run, exit), EncodeAction::Finish { result: Ok(()) }));
}

#[test]
fn exit_without_success_carries_status_and_log() {
    let mut run = EncodeRun { total_duration: 0, log: Vec::new() };
    for n in 0..22 {
        encode_video(&mut run, diagnostic(&format!("e{}\n", n)));
    }
    let exit = EncodeEvent::Exited { success: false, status: "exit status: 1".to_string() };
    match encode_video(&mut run, exit) {
        EncodeAction::Finish { result: Err(error) } => {
            match &error {
                EncodeError::Failed { status, log } => {
                    assert_eq!(status, "exit status: 1");
                    assert_eq!(log.len(), 20);
                    assert_eq!(log[0], "e2");
                    assert_eq!(log[19], "e21");
                }
                other => panic!("unexpected error {:?}", other),
            }
            let lines: Vec<String> = (2..22).map(|n| format!("e{}", n)).collect();
            assert_eq!(
                error.message(),
                format!(
                    "FFmpeg encoding failed with status: exit status: 1\nLast 20 lines of error log:\n{}",
                    lines.join("\n")
                )
            );
        }
        other => panic!("unexpected action {:?}", other),
    }
    assert_eq!(run.log.len(), 20);
}

#[test]
fn failure_without_diagnostics_has_an_empty_log() {
    let mut run = EncodeRun { total_duration: 0, log: Vec::new() };
    let exit = EncodeEvent::Exited { success: false, status: "signal: 9".to_string() };
    match encode_video(&mut run, exit) {
        EncodeAction::Finish { result: Err(error) } => assert_eq!(
            error.message(),
            "FFmpeg encoding failed with status: signal: 9\nLast 20 lines of error log:\n"
        ),
        other => panic!("unexpected action {:?}", other),
    }
}

#[test]
fn launch_failure_is_a_spawn_error() {
    let mut run = EncodeRun { total_duration: 0, log: Vec::new() };
    let event = EncodeEvent::LaunchFailed { reason: "Failed to spawn ffmpeg process".to_string() };
    match encode_video(&mut run, event) {
        EncodeAction::Finish { result: Err(error) } => {
            assert!(matches!(error, EncodeError::Spawn { .. }));
            assert_eq!(error.message(), "Failed to spawn ffmpeg process");
        }
        other => panic!("unexpected action {:?}", other),
    }
}
