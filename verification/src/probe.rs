//! What is known of a source file, and how it is read off the probing tool's report.
//!
//! The duration is held in microseconds and the frame rate in thousandths of a frame per
//! second.

use crate::seqs::{first_where, lemma_first_where_is};
use crate::text::{fixed_point, is_decimal, parse_fixed, parse_unsigned, parsed_unsigned,
    same_text, split_at_first, split_once, text_view};
use vstd::prelude::*;

verus! {

/// The metadata of a source file. Probed once, read-only afterwards.
#[derive(Debug)]
pub struct VideoInfo {
    pub path: String,
    /// Duration in microseconds; 0 where it is unknown.
    pub duration: u64,
    pub width: u32,
    pub height: u32,
    /// Container bitrate in bits per second; 0 where it is unknown.
    pub bitrate: u64,
    pub codec: String,
    /// Frame rate in thousandths of a frame per second; 0 where it is unknown.
    pub fps: u64,
    /// File size in bytes.
    pub size: u64,
    pub audio_codec: Option<String>,
    pub audio_bitrate: Option<u64>,
}

/// The mathematical content of [`VideoInfo`].
pub struct VideoModel {
    pub path: Seq<char>,
    pub duration: u64,
    pub width: u32,
    pub height: u32,
    pub bitrate: u64,
    pub codec: Seq<char>,
    pub fps: u64,
    pub size: u64,
    pub audio_codec: Option<Seq<char>>,
    pub audio_bitrate: Option<u64>,
}

impl View for VideoInfo {
    type V = VideoModel;

    open spec fn view(&self) -> VideoModel {
        VideoModel {
            path: self.path@,
            duration: self.duration,
            width: self.width,
            height: self.height,
            bitrate: self.bitrate,
            codec: self.codec@,
            fps: self.fps,
            size: self.size,
            audio_codec: text_view(self.audio_codec),
            audio_bitrate: self.audio_bitrate,
        }
    }
}

/// A copy of a text that may be absent.
pub fn clone_text(t: &Option<String>) -> (r: Option<String>)
    ensures
        text_view(r) == text_view(*t),
{
    match t {
        Some(s) => Some(s.clone()),
        None => None,
    }
}

impl Clone for VideoInfo {
    fn clone(&self) -> (v: Self)
        ensures
            v@ == self@,
    {
        VideoInfo {
            path: self.path.clone(),
            duration: self.duration,
            width: self.width,
            height: self.height,
            bitrate: self.bitrate,
            codec: self.codec.clone(),
            fps: self.fps,
            size: self.size,
            audio_codec: clone_text(&self.audio_codec),
            audio_bitrate: self.audio_bitrate,
        }
    }
}

/// The container section of the probing tool's report. Numbers come as text.
#[derive(Debug)]
pub struct ProbeFormat {
    pub duration: Option<String>,
    pub size: Option<String>,
    pub bit_rate: Option<String>,
}

/// One elementary stream of the probing tool's report.
#[derive(Debug)]
pub struct ProbeStream {
    /// `video` or `audio`, or another kind that is passed over.
    pub codec_type: String,
    pub codec_name: String,
    pub width: Option<u32>,
    pub height: Option<u32>,
    /// The frame rate as a fraction, such as `30000/1001`.
    pub r_frame_rate: Option<String>,
    pub bit_rate: Option<String>,
}

/// The probing tool's report on one file.
#[derive(Debug)]
pub struct ProbeOutput {
    pub format: ProbeFormat,
    pub streams: Vec<ProbeStream>,
}

/// The mathematical content of [`ProbeFormat`].
pub struct FormatModel {
    pub duration: Option<Seq<char>>,
    pub size: Option<Seq<char>>,
    pub bit_rate: Option<Seq<char>>,
}

/// The mathematical content of [`ProbeStream`].
pub struct StreamModel {
    pub codec_type: Seq<char>,
    pub codec_name: Seq<char>,
    pub width: Option<u32>,
    pub height: Option<u32>,
    pub r_frame_rate: Option<Seq<char>>,
    pub bit_rate: Option<Seq<char>>,
}

impl View for ProbeFormat {
    type V = FormatModel;

    open spec fn view(&self) -> FormatModel {
        FormatModel {
            duration: text_view(self.duration),
            size: text_view(self.size),
            bit_rate: text_view(self.bit_rate),
        }
    }
}

impl View for ProbeStream {
    type V = StreamModel;

    open spec fn view(&self) -> StreamModel {
        StreamModel {
            codec_type: self.codec_type@,
            codec_name: self.codec_name@,
            width: self.width,
            height: self.height,
            r_frame_rate: text_view(self.r_frame_rate),
            bit_rate: text_view(self.bit_rate),
        }
    }
}

/// The streams of a report as models, in order.
pub open spec fn stream_models(streams: Seq<ProbeStream>) -> Seq<StreamModel> {
    Seq::new(streams.len(), |i: int| streams[i]@)
}

/// Why a file could not be enqueued after the probing tool had reported on it.
#[derive(Debug, PartialEq, Eq, Structural, Clone, Copy)]
pub enum ProbeError {
    /// The report lists no stream of kind `video`.
    NoVideoStream,
}

impl ProbeError {
    /// The error in words.
    pub fn message(&self) -> (s: String)
        ensures
            s@ == "No video stream found"@,
    {
        String::from_str("No video stream found")
    }
}

/// The position of the first stream of the given kind, or the number of streams where
/// there is none.
pub open spec fn first_stream(streams: Seq<StreamModel>, kind: Seq<char>) -> int {
    first_where(streams, |stream: StreamModel| stream.codec_type == kind)
}

fn find_stream(streams: &Vec<ProbeStream>, kind: &str) -> (at: usize)
    ensures
        at == first_stream(stream_models(streams@), kind@),
        at <= streams.len(),
{
    let mut at: usize = 0;
    while at < streams.len() && !same_text(streams[at].codec_type.as_str(), kind)
        invariant
            at <= streams.len(),
            forall|k: int| 0 <= k < at ==> stream_models(streams@)[k].codec_type != kind@,
        decreases streams.len() - at,
    {
        at += 1;
    }
    proof {
        lemma_first_where_is(
            stream_models(streams@),
            |stream: StreamModel| stream.codec_type == kind@,
            at as int,
        );
    }
    at
}

/// The number that a text of the report writes, where it is there and is a numeral that
/// fits 64 bits.
pub open spec fn number_of(text: Option<Seq<char>>) -> Option<u64> {
    match text {
        Some(t) => match parsed_unsigned(t, u64::MAX as nat) {
            Some(n) => Some(n as u64),
            None => None,
        },
        None => None,
    }
}

fn read_number(text: &Option<String>) -> (r: Option<u64>)
    ensures
        r == number_of(text_view(*text)),
{
    match text {
        Some(t) => parse_unsigned(t.as_str(), u64::MAX),
        None => None,
    }
}

/// The duration in microseconds that the report's text gives: its decimal value, rounded
/// down, or 0 where it is absent or no plain decimal number that fits.
pub open spec fn duration_of(text: Option<Seq<char>>) -> u64 {
    match text {
        Some(t) => if is_decimal(t) && fixed_point(t, 6) <= u64::MAX {
            fixed_point(t, 6) as u64
        } else {
            0
        },
        None => 0,
    }
}

/// The quotient of two decimal texts in thousandths, rounded down: 0 where either is no
/// plain decimal number that fits, the divisor is zero, or the quotient does not fit.
pub open spec fn ratio_of(numerator: Seq<char>, denominator: Seq<char>) -> u64 {
    if is_decimal(numerator) && fixed_point(numerator, 3) <= u64::MAX && is_decimal(denominator)
        && 0 < fixed_point(denominator, 3) <= u64::MAX && (fixed_point(numerator, 3) * 1000)
        / fixed_point(denominator, 3) <= u64::MAX {
        ((fixed_point(numerator, 3) * 1000) / fixed_point(denominator, 3)) as u64
    } else {
        0
    }
}

/// The frame rate in thousandths that a fraction `NUMERATOR/DENOMINATOR` gives; 0 where the
/// text is absent or no such fraction.
pub open spec fn frame_rate_of(text: Option<Seq<char>>) -> u64 {
    match text {
        Some(t) => match split_at_first(t, '/') {
            Some(parts) => ratio_of(parts.0, parts.1),
            None => 0,
        },
        None => 0,
    }
}

fn read_frame_rate(text: &Option<String>) -> (r: u64)
    ensures
        r == frame_rate_of(text_view(*text)),
{
    let (numerator, denominator) = match text {
        Some(t) => match split_once(t.as_str(), '/') {
            Some(parts) => parts,
            None => {
                return 0;
            },
        },
        None => {
            return 0;
        },
    };
    let n: u64 = match parse_fixed(numerator.as_str(), 3) {
        Some(n) => n,
        None => {
            return 0;
        },
    };
    let d: u64 = match parse_fixed(denominator.as_str(), 3) {
        Some(d) => d,
        None => {
            return 0;
        },
    };
    if d == 0 {
        return 0;
    }
    let q: u128 = (n as u128 * 1000) / (d as u128);
    if q > u64::MAX as u128 {
        0
    } else {
        q as u64
    }
}

/// The metadata that a report gives for a file of the given path and size: `None` where the
/// report has no video stream. Dimensions, codec and frame rate are the first video
/// stream's; the audio codec and bitrate are the first audio stream's, where there is one.
/// The bitrate is the container's, else the video stream's, else 0.
pub open spec fn video_info_of(
    path: Seq<char>,
    size: u64,
    format: FormatModel,
    streams: Seq<StreamModel>,
) -> Option<VideoModel> {
    let v = first_stream(streams, "video"@);
    let a = first_stream(streams, "audio"@);
    if v >= streams.len() {
        None
    } else {
        Some(
            VideoModel {
                path,
                duration: duration_of(format.duration),
                width: match streams[v].width {
                    Some(w) => w,
                    None => 0,
                },
                height: match streams[v].height {
                    Some(h) => h,
                    None => 0,
                },
                bitrate: match number_of(format.bit_rate) {
                    Some(b) => b,
                    None => match number_of(streams[v].bit_rate) {
                        Some(b) => b,
                        None => 0,
                    },
                },
                codec: streams[v].codec_name,
                fps: frame_rate_of(streams[v].r_frame_rate),
                size,
                audio_codec: if a < streams.len() {
                    Some(streams[a].codec_name)
                } else {
                    None
                },
                audio_bitrate: if a < streams.len() {
                    number_of(streams[a].bit_rate)
                } else {
                    None
                },
            },
        )
    }
}

/// Reads a file's metadata off the probing tool's report. `path` is the file's path and
/// `size` its size in bytes.
pub fn probe_video(path: &str, size: u64, report: &ProbeOutput) -> (r: Result<
    VideoInfo,
    ProbeError,
>)
    ensures
        match video_info_of(path@, size, report.format@, stream_models(report.streams@)) {
            Some(info) => r is Ok && r->Ok_0@ == info,
            None => r == Err::<VideoInfo, ProbeError>(ProbeError::NoVideoStream),
        },
{
    let streams = &report.streams;
    let v = find_stream(streams, "video");
    if v >= streams.len() {
        return Err(ProbeError::NoVideoStream);
    }
    let a = find_stream(streams, "audio");
    let video = &streams[v];
    assert(stream_models(streams@)[v as int] == video@);
    let duration: u64 = match &report.format.duration {
        Some(t) => match parse_fixed(t.as_str(), 6) {
            Some(d) => d,
            None => 0,
        },
        None => 0,
    };
    let bitrate: u64 = match read_number(&report.format.bit_rate) {
        Some(b) => b,
        None => match read_number(&video.bit_rate) {
            Some(b) => b,
            None => 0,
        },
    };
    let (audio_codec, audio_bitrate) = if a < streams.len() {
        let audio = &streams[a];
        assert(stream_models(streams@)[a as int] == audio@);
        (Some(audio.codec_name.clone()), read_number(&audio.bit_rate))
    } else {
        (None, None)
    };
    Ok(
        VideoInfo {
            path: String::from_str(path),
            duration,
            width: match video.width {
                Some(w) => w,
                None => 0,
            },
            height: match video.height {
                Some(h) => h,
                None => 0,
            },
            bitrate,
            codec: video.codec_name.clone(),
            fps: read_frame_rate(&video.r_frame_rate),
            size,
            audio_codec,
            audio_bitrate,
        },
    )
}

} // verus!
