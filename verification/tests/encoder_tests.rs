use video_queue::encoder::{
    build_ffmpeg_command, calculate_safe_bitrate, checked_settings, clone_pairs, clone_strings,
    detect_hardware_encoders, list_has, select_encoder, validate_resolution, EncodingSettings,
    ValidationError,
};

fn strings(items: &[&str]) -> Vec<String> {
    items.iter().map(|s| s.to_string()).collect()
}

fn settings(codec: &str, use_hardware: bool) -> EncodingSettings {
    EncodingSettings {
        output_format: "mp4".to_string(),
        video_codec: codec.to_string(),
        audio_codec: "aac".to_string(),
        resolution: None,
        bitrate: None,
        crf: Some(23),
        preset: "medium".to_string(),
        use_hardware,
        remove_metadata: false,
        custom_metadata: None,
    }
}

#[test]
fn default_settings_are_h264_in_mp4() {
    let s = EncodingSettings::default();
    assert_eq!(s.output_format, "mp4");
    assert_eq!(s.video_codec, "libx264");
    assert_eq!(s.audio_codec, "aac");
    assert_eq!(s.resolution, None);
    assert_eq!(s.bitrate, None);
    assert_eq!(s.crf, Some(23));
    assert_eq!(s.preset, "medium");
    assert!(s.use_hardware);
    assert!(!s.remove_metadata);
    assert_eq!(s.custom_metadata, None);
}

#[test]
fn settings_clone_keeps_every_field() {
    let mut s = settings("hevc", false);
    s.resolution = Some((1280, 720));
    s.bitrate = Some(2_500_000);
    s.crf = None;
    s.remove_metadata = true;
    s.custom_metadata = Some(vec![("title".to_string(), "A".to_string())]);
    let c = s.clone();
    assert_eq!(c.output_format, s.output_format);
    assert_eq!(c.video_codec, s.video_codec);
    assert_eq!(c.audio_codec, s.audio_codec);
    assert_eq!(c.resolution, s.resolution);
    assert_eq!(c.bitrate, s.bitrate);
    assert_eq!(c.crf, s.crf);
    assert_eq!(c.preset, s.preset);
    assert_eq!(c.use_hardware, s.use_hardware);
    assert_eq!(c.remove_metadata, s.remove_metadata);
    assert_eq!(c.custom_metadata, s.custom_metadata);
}

#[test]
fn copies_of_lists_are_equal_lists() {
    let pairs = vec![("a".to_string(), "b".to_string()), ("c".to_string(), "".to_string())];
    assert_eq!(clone_pairs(&pairs), pairs);
    let list = strings(&["x", "", "yz"]);
    assert_eq!(clone_strings(&list), list);
    assert!(list_has(&list, "yz"));
    assert!(list_has(&list, ""));
    assert!(!list_has(&list, "y"));
    assert!(!list_has(&[], "y"));
}

#[test]
fn validate_resolution_refuses_any_upscale() {
    let original = (1920, 1080);
    for target in [(1921, 1080), (1920, 1081), (3840, 2160), (1921, 1), (1, 1081)] {
        match validate_resolution(target, original) {
            Err(ValidationError::Upscale { original: o, target: t }) => {
                assert_eq!(o, original);
                assert_eq!(t, target);
            }
            Ok(_) => panic!("{:?} was accepted", target),
        }
    }
}

#[test]
fn validate_resolution_hands_back_what_fits() {
    let original = (1920, 1080);
    for target in [(1920, 1080), (1280, 720), (0, 0), (1920, 1), (1, 1080)] {
        match validate_resolution(target, original) {
            Ok(r) => assert_eq!(r, target),
            Err(_) => panic!("{:?} was refused", target),
        }
    }
}

#[test]
fn upscale_error_names_both_resolutions() {
    let e = ValidationError::Upscale { original: (1280, 720), target: (1920, 1080) };
    assert_eq!(e.message(), "Cannot upscale video from 1280x720 to 1920x1080");
    let e = ValidationError::Upscale { original: (0, 0), target: (u32::MAX, 1) };
    assert_eq!(e.message(), "Cannot upscale video from 0x0 to 4294967295x1");
}

#[test]
fn safe_bitrate_never_exceeds_a_known_source() {
    assert_eq!(calculate_safe_bitrate(8_000_000, 5_000_000), 5_000_000);
    assert_eq!(calculate_safe_bitrate(5_000_001, 5_000_000), 5_000_000);
    assert_eq!(calculate_safe_bitrate(u64::MAX, 1), 1);
}

#[test]
fn safe_bitrate_keeps_the_target_otherwise() {
    assert_eq!(calculate_safe_bitrate(5_000_000, 5_000_000), 5_000_000);
    assert_eq!(calculate_safe_bitrate(3_000_000, 5_000_000), 3_000_000);
    assert_eq!(calculate_safe_bitrate(3_000_000, 0), 3_000_000);
    assert_eq!(calculate_safe_bitrate(u64::MAX, 0), u64::MAX);
    assert_eq!(calculate_safe_bitrate(0, 0), 0);
    assert_eq!(calculate_safe_bitrate(0, 7), 0);
}

#[test]
fn guard_rails_refuse_upscale_and_hold_the_bitrate_down() {
    let mut s = settings("libx264", true);
    s.resolution = Some((1280, 720));
    s.bitrate = Some(9_000_000);
    let safe = checked_settings(&s, (1920, 1080), 4_000_000).unwrap();
    assert_eq!(safe.resolution, Some((1280, 720)));
    assert_eq!(safe.bitrate, Some(4_000_000));
    assert_eq!(safe.video_codec, "libx264");
    assert!(safe.use_hardware);

    let safe = checked_settings(&s, (1280, 720), 0).unwrap();
    assert_eq!(safe.bitrate, Some(9_000_000));

    match checked_settings(&s, (1279, 720), 4_000_000) {
        Err(ValidationError::Upscale { original, target }) => {
            assert_eq!(original, (1279, 720));
            assert_eq!(target, (1280, 720));
        }
        Ok(_) => panic!("an upscale passed the guard rails"),
    }

    s.resolution = None;
    s.bitrate = None;
    let safe = checked_settings(&s, (1, 1), 1).unwrap();
    assert_eq!(safe.resolution, None);
    assert_eq!(safe.bitrate, None);
}

#[test]
fn software_codec_is_kept_when_hardware_is_disabled() {
    let all = strings(&[
        "h264_nvenc", "hevc_nvenc", "h264_qsv", "hevc_qsv", "h264_vaapi", "hevc_vaapi",
    ]);
    for codec in ["libx264", "h264", "libx265", "hevc", "vp9", ""] {
        assert_eq!(select_encoder(&settings(codec, false), &all), codec);
        assert_eq!(select_encoder(&settings(codec, false), &[]), codec);
        assert_eq!(select_encoder(&settings(codec, true), &[]), codec);
    }
}

#[test]
fn gpu_vendor_encoder_wins_when_all_are_present() {
    let all = strings(&[
        "h264_vaapi", "hevc_vaapi", "h264_qsv", "hevc_qsv", "h264_nvenc", "hevc_nvenc",
    ]);
    assert_eq!(select_encoder(&settings("libx264", true), &all), "h264_nvenc");
    assert_eq!(select_encoder(&settings("h264", true), &all), "h264_nvenc");
    assert_eq!(select_encoder(&settings("libx265", true), &all), "hevc_nvenc");
    assert_eq!(select_encoder(&settings("hevc", true), &all), "hevc_nvenc");
}

#[test]
fn encoder_priority_and_fallback() {
    let no_nvenc = strings(&["h264_vaapi", "hevc_vaapi", "h264_qsv", "hevc_qsv"]);
    assert_eq!(select_encoder(&settings("libx264", true), &no_nvenc), "h264_qsv");
    assert_eq!(select_encoder(&settings("hevc", true), &no_nvenc), "hevc_qsv");
    let vaapi = strings(&["h264_vaapi", "hevc_vaapi"]);
    assert_eq!(select_encoder(&settings("h264", true), &vaapi), "h264_vaapi");
    assert_eq!(select_encoder(&settings("libx265", true), &vaapi), "hevc_vaapi");
    let only_h264 = strings(&["h264_nvenc"]);
    assert_eq!(select_encoder(&settings("libx265", true), &only_h264), "libx265");
    assert_eq!(select_encoder(&settings("hevc", true), &only_h264), "hevc");
    let other = strings(&["av1_nvenc"]);
    assert_eq!(select_encoder(&settings("libx264", true), &other), "libx264");
    assert_eq!(select_encoder(&settings("vp9", true), &no_nvenc), "vp9");
    assert_eq!(select_encoder(&settings("LIBX264", true), &no_nvenc), "LIBX264");
}

#[test]
fn hardware_encoders_are_picked_out_of_the_listing() {
    assert_eq!(detect_hardware_encoders(""), Vec::<String>::new());
    assert_eq!(detect_hardware_encoders("libx264 libx265 aac"), Vec::<String>::new());
    let listing = " V....D hevc_vaapi    H.265 (VAAPI)\n V....D h264_nvenc   NVIDIA\n V..... h264_qsv\n";
    assert_eq!(
        detect_hardware_encoders(listing),
        strings(&["h264_nvenc", "h264_qsv", "hevc_vaapi"])
    );
    let all = "hevc_vaapi h264_vaapi hevc_qsv h264_qsv hevc_nvenc h264_nvenc";
    assert_eq!(
        detect_hardware_encoders(all),
        strings(&["h264_nvenc", "hevc_nvenc", "h264_qsv", "hevc_qsv", "h264_vaapi", "hevc_vaapi"])
    );
}

#[test]
fn command_for_default_settings_in_software() {
    let args = build_ffmpeg_command("in.mkv", "out.mp4", &settings("libx264", false), &[]);
    assert_eq!(
        args,
        strings(&[
            "-i", "in.mkv", "-y", "-c:v", "libx264", "-pix_fmt", "yuv420p", "-vf",
            "scale=trunc(iw/2)*2:trunc(ih/2)*2", "-crf", "23", "-preset", "medium", "-c:a", "aac",
            "-progress", "pipe:1", "out.mp4",
        ])
    );
}

#[test]
fn command_drops_the_quality_factor_for_hardware_encoders() {
    let hw = strings(&["h264_nvenc"]);
    let args = build_ffmpeg_command("in.mkv", "out.mp4", &settings("libx264", true), &hw);
    assert_eq!(
        args,
        strings(&[
            "-i", "in.mkv", "-y", "-c:v", "h264_nvenc", "-pix_fmt", "yuv420p", "-vf",
            "scale=trunc(iw/2)*2:trunc(ih/2)*2", "-preset", "medium", "-c:a", "aac", "-progress",
            "pipe:1", "out.mp4",
        ])
    );
    for encoder in ["h264_qsv", "hevc_vaapi", "my_nvenc_build"] {
        let args = build_ffmpeg_command("a", "b", &settings(encoder, false), &[]);
        assert!(!args.contains(&"-crf".to_string()), "for {}", encoder);
    }
}

#[test]
fn command_with_resolution_bitrate_and_metadata() {
    let mut s = settings("libx265", false);
    s.resolution = Some((1280, 720));
    s.bitrate = Some(2_500_999);
    s.crf = Some(18);
    s.preset = "slow".to_string();
    s.audio_codec = "copy".to_string();
    s.remove_metadata = true;
    s.custom_metadata = Some(vec![
        ("title".to_string(), "My Film".to_string()),
        ("year".to_string(), "".to_string()),
    ]);
    let args = build_ffmpeg_command("/in/a b.mov", "/out/a b.mp4", &s, &[]);
    assert_eq!(
        args,
        strings(&[
            "-i", "/in/a b.mov", "-y", "-c:v", "libx265", "-pix_fmt", "yuv420p", "-vf",
            "scale=1280:720", "-b:v", "2500k", "-preset", "slow", "-c:a", "copy",
            "-map_metadata", "-1", "-metadata", "title=My Film", "-metadata", "year=",
            "-progress", "pipe:1", "/out/a b.mp4",
        ])
    );
}

#[test]
fn command_without_rate_control_or_with_tiny_bitrate() {
    let mut s = settings("libx264", false);
    s.crf = None;
    let args = build_ffmpeg_command("i", "o", &s, &[]);
    assert!(!args.contains(&"-crf".to_string()));
    assert!(!args.contains(&"-b:v".to_string()));
    s.bitrate = Some(999);
    s.custom_metadata = Some(Vec::new());
    let args = build_ffmpeg_command("i", "o", &s, &[]);
    assert_eq!(
        args,
        strings(&[
            "-i", "i", "-y", "-c:v", "libx264", "-pix_fmt", "yuv420p", "-vf",
            "scale=trunc(iw/2)*2:trunc(ih/2)*2", "-b:v", "0k", "-preset", "medium", "-c:a", "aac",
            "-progress", "pipe:1", "o",
        ])
    );
}
