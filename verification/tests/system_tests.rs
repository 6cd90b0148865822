use video_queue::system::{calculate_max_concurrent, get_system_info, max_concurrent_for};

#[test]
fn default_concurrency_is_a_quarter_of_the_processors() {
    assert_eq!(max_concurrent_for(0), 1);
    assert_eq!(max_concurrent_for(1), 1);
    assert_eq!(max_concurrent_for(3), 1);
    assert_eq!(max_concurrent_for(4), 1);
    assert_eq!(max_concurrent_for(7), 1);
    assert_eq!(max_concurrent_for(8), 2);
    assert_eq!(max_concurrent_for(16), 4);
    assert_eq!(max_concurrent_for(usize::MAX), usize::MAX / 4);
}

#[test]
fn default_concurrency_on_this_machine_is_at_least_one() {
    let n = calculate_max_concurrent();
    assert!(n >= 1);
    assert_eq!(n, max_concurrent_for(n * 4));
}

#[test]
fn system_info_holds_what_was_found() {
    let info = get_system_info(true, false, "encoders: hevc_nvenc h264_vaapi");
    assert!(info.ffmpeg_available);
    assert!(!info.ffprobe_available);
    assert_eq!(info.hardware_encoders, vec!["hevc_nvenc".to_string(), "h264_vaapi".to_string()]);
    assert!(info.cpu_cores >= 1);
    assert_eq!(info.max_concurrent_jobs, max_concurrent_for(info.cpu_cores));
    let info = get_system_info(false, true, "");
    assert!(!info.ffmpeg_available);
    assert!(info.ffprobe_available);
    assert!(info.hardware_encoders.is_empty());
}
