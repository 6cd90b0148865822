use video_queue::probe::{probe_video, ProbeError, ProbeFormat, ProbeOutput, ProbeStream};

fn some(s: &str) -> Option<String> {
    Some(s.to_string())
}

fn stream(kind: &str, codec: &str) -> ProbeStream {
    ProbeStream {
        codec_type: kind.to_string(),
        codec_name: codec.to_string(),
        width: None,
        height: None,
        r_frame_rate: None,
        bit_rate: None,
    }
}

fn format(duration: Option<String>, bit_rate: Option<String>) -> ProbeFormat {
    ProbeFormat { duration, size: None, bit_rate }
}

#[test]
fn report_with_video_and_audio() {
    let mut video = stream("video", "h264");
    video.width = Some(1920);
    video.height = Some(1080);
    video.r_frame_rate = some("30000/1001");
    video.bit_rate = some("4000000");
    let mut audio = stream("audio", "aac");
    audio.bit_rate = some("128000");
    let report = ProbeOutput {
        format: format(some("12.345678"), some("4500000")),
        streams: vec![stream("data", "bin"), video, audio, stream("video", "mjpeg"), stream("audio", "mp3")],
    };
    let info = probe_video("/videos/a.mp4", 7_000_000, &report).unwrap();
    assert_eq!(info.path, "/videos/a.mp4");
    assert_eq!(info.duration, 12_345_678);
    assert_eq!(info.width, 1920);
    assert_eq!(info.height, 1080);
    assert_eq!(info.bitrate, 4_500_000);
    assert_eq!(info.codec, "h264");
    assert_eq!(info.fps, 29_970);
    assert_eq!(info.size, 7_000_000);
    assert_eq!(info.audio_codec, some("aac"));
    assert_eq!(info.audio_bitrate, Some(128_000));
    let copy = info.clone();
    assert_eq!(copy.path, info.path);
    assert_eq!(copy.duration, info.duration);
    assert_eq!(copy.codec, info.codec);
    assert_eq!(copy.audio_codec, info.audio_codec);
    assert_eq!(copy.audio_bitrate, info.audio_bitrate);
}

#[test]
fn report_without_video_stream_is_refused() {
    let report = ProbeOutput {
        format: format(some("1.0"), None),
        streams: vec![stream("audio", "aac"), stream("subtitle", "srt"), stream("Video", "h264")],
    };
    assert_eq!(probe_video("a", 1, &report).err(), Some(ProbeError::NoVideoStream));
    let empty = ProbeOutput { format: format(None, None), streams: Vec::new() };
    assert_eq!(probe_video("a", 1, &empty).err(), Some(ProbeError::NoVideoStream));
    assert_eq!(ProbeError::NoVideoStream.message(), "No video stream found");
}

#[test]
fn absent_and_unreadable_numbers_fall_back() {
    let mut video = stream("video", "vp9");
    video.bit_rate = some("900000");
    video.r_frame_rate = some("25");
    let report = ProbeOutput { format: format(some("N/A"), some("N/A")), streams: vec![video] };
    let info = probe_video("v", 0, &report).unwrap();
    assert_eq!(info.duration, 0);
    assert_eq!(info.width, 0);
    assert_eq!(info.height, 0);
    assert_eq!(info.bitrate, 900_000);
    assert_eq!(info.fps, 0);
    assert_eq!(info.audio_codec, None);
    assert_eq!(info.audio_bitrate, None);

    let report = ProbeOutput { format: format(None, None), streams: vec![stream("video", "vp9")] };
    let info = probe_video("v", 0, &report).unwrap();
    assert_eq!(info.duration, 0);
    assert_eq!(info.bitrate, 0);
}

#[test]
fn frame_rate_fractions() {
    let cases = [
        ("25/1", 25_000),
        ("30000/1001", 29_970),
        ("24000/1001", 23_976),
        ("60/1", 60_000),
        ("1/3", 333),
        ("0/1", 0),
        ("0/0", 0),
        ("30/0", 0),
        ("30", 0),
        ("30/1/1", 0),
        ("/", 0),
        ("a/b", 0),
        ("30/", 0),
        ("/30", 0),
        ("2.5/0.5", 5_000),
        ("", 0),
    ];
    for (text, expected) in cases {
        let mut video = stream("video", "h264");
        video.r_frame_rate = some(text);
        let report = ProbeOutput { format: format(None, None), streams: vec![video] };
        assert_eq!(probe_video("v", 0, &report).unwrap().fps, expected, "for {:?}", text);
    }
}

#[test]
fn audio_bitrate_that_is_no_number_is_absent() {
    let mut audio = stream("audio", "opus");
    audio.bit_rate = some("fast");
    let report = ProbeOutput {
        format: format(some("3"), some("+42")),
        streams: vec![audio, stream("video", "av1")],
    };
    let info = probe_video("v", 9, &report).unwrap();
    assert_eq!(info.audio_codec, some("opus"));
    assert_eq!(info.audio_bitrate, None);
    assert_eq!(info.duration, 3_000_000);
    assert_eq!(info.bitrate, 42);
    assert_eq!(info.codec, "av1");
}
