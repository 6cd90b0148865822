//! Progress lines of the transcoder: `key=value` fields on its primary output stream.
//!
//! Fractional quantities are held as scaled whole numbers: media time in microseconds, the
//! frame rate in thousandths of a frame per second, the share done in hundredths of a percent.

use crate::text::{chars_of, contains_text, fixed_point, has_subseq, is_decimal, parse_fixed,
    parse_unsigned, parsed_unsigned, string_of, text_view};
use vstd::prelude::*;

verus! {

/// One progress report of a running encode. Made from a progress line, handed on, dropped.
#[derive(Debug)]
pub struct EncodingProgress {
    /// Share of the source's duration that is encoded, in hundredths of a percent, from 0
    /// to 10 000.
    pub percentage: u32,
    /// Encoded media time in microseconds.
    pub current_time: u64,
    /// Frames encoded per second, in thousandths; 0 where the line gave none.
    pub fps: u64,
    /// Encode speed as a multiple of real time, such as `1.2x`.
    pub speed: String,
    /// Output bitrate with its unit, such as `4500.0kbits/s`.
    pub bitrate: String,
}

/// The mathematical content of [`EncodingProgress`].
pub struct ProgressModel {
    pub percentage: u32,
    pub current_time: u64,
    pub fps: u64,
    pub speed: Seq<char>,
    pub bitrate: Seq<char>,
}

impl View for EncodingProgress {
    type V = ProgressModel;

    open spec fn view(&self) -> ProgressModel {
        ProgressModel {
            percentage: self.percentage,
            current_time: self.current_time,
            fps: self.fps,
            speed: self.speed@,
            bitrate: self.bitrate@,
        }
    }
}

impl Clone for EncodingProgress {
    fn clone(&self) -> (p: Self)
        ensures
            p@ == self@,
    {
        EncodingProgress {
            percentage: self.percentage,
            current_time: self.current_time,
            fps: self.fps,
            speed: self.speed.clone(),
            bitrate: self.bitrate.clone(),
        }
    }
}

/// The share of `total` that `elapsed` is, in hundredths of a percent, rounded down and
/// never above 10 000. An unknown total, written 0, gives 0.
pub open spec fn percent_done(elapsed: u64, total: u64) -> nat {
    if total == 0 {
        0
    } else if elapsed >= total {
        10000
    } else {
        ((elapsed * 10000) / (total as int)) as nat
    }
}

/// Computes [`percent_done`].
pub fn percentage_of(elapsed: u64, total: u64) -> (p: u32)
    ensures
        p == percent_done(elapsed, total),
        p <= 10000,
{
    if total == 0 {
        0
    } else if elapsed >= total {
        10000
    } else {
        let scaled: u128 = elapsed as u128 * 10000;
        let share: u128 = scaled / (total as u128);
        assert(share < 10000) by (nonlinear_arith)
            requires
                share == (elapsed * 10000) / (total as int),
                0 <= elapsed < total,
        {
        }
        share as u32
    }
}

/// The frame rate that a captured text gives: its decimal value in thousandths, or 0 where
/// nothing was captured or the text is no decimal number that fits.
pub open spec fn fps_of(capture: Option<Seq<char>>) -> u64 {
    match capture {
        Some(text) => if is_decimal(text) && fixed_point(text, 3) <= u64::MAX {
            fixed_point(text, 3) as u64
        } else {
            0
        },
        None => 0,
    }
}

/// A captured number with its unit behind it, or zero with the unit where nothing was
/// captured.
pub open spec fn with_unit(capture: Option<Seq<char>>, unit: Seq<char>) -> Seq<char> {
    match capture {
        Some(text) => text + unit,
        None => seq!['0'] + unit,
    }
}

/// The report that the captured fields of a line make. The elapsed time is required: where
/// it is missing, or no number of microseconds that fits 64 bits, there is no report. Each
/// of the other fields has a default.
pub open spec fn progress_of(
    time: Option<Seq<char>>,
    fps: Option<Seq<char>>,
    speed: Option<Seq<char>>,
    bitrate: Option<Seq<char>>,
    total_duration: u64,
) -> Option<ProgressModel> {
    match time {
        Some(text) => match parsed_unsigned(text, u64::MAX as nat) {
            Some(elapsed) => Some(
                ProgressModel {
                    percentage: percent_done(elapsed as u64, total_duration) as u32,
                    current_time: elapsed as u64,
                    fps: fps_of(fps),
                    speed: with_unit(speed, "x"@),
                    bitrate: with_unit(bitrate, "kbits/s"@),
                },
            ),
            None => None,
        },
        None => None,
    }
}

/// The view of a report that may be absent.
pub open spec fn report_view(r: Option<EncodingProgress>) -> Option<ProgressModel> {
    match r {
        Some(p) => Some(p@),
        None => None,
    }
}

fn unit_text(capture: &Option<String>, unit: &str) -> (s: String)
    ensures
        s@ == with_unit(text_view(*capture), unit@),
{
    let mut t: Vec<char> = match capture {
        Some(text) => chars_of(text.as_str()),
        None => {
            let mut zero: Vec<char> = Vec::new();
            zero.push('0');
            zero
        },
    };
    let mut u = chars_of(unit);
    t.append(&mut u);
    assert(t@ =~= with_unit(text_view(*capture), unit@));
    string_of(&t)
}

/// Makes the progress report from the fields captured on one line and the source's
/// duration in microseconds (0 where it is unknown).
pub fn progress_from_captures(
    time: Option<String>,
    fps: Option<String>,
    speed: Option<String>,
    bitrate: Option<String>,
    total_duration: u64,
) -> (r: Option<EncodingProgress>)
    ensures
        report_view(r) == progress_of(
            text_view(time),
            text_view(fps),
            text_view(speed),
            text_view(bitrate),
            total_duration,
        ),
{
    let elapsed: u64 = match &time {
        Some(text) => match parse_unsigned(text.as_str(), u64::MAX) {
            Some(n) => n,
            None => {
                return None;
            },
        },
        None => {
            return None;
        },
    };
    let rate: u64 = match &fps {
        Some(text) => match parse_fixed(text.as_str(), 3) {
            Some(n) => n,
            None => 0,
        },
        None => 0,
    };
    Some(
        EncodingProgress {
            percentage: percentage_of(elapsed, total_duration),
            current_time: elapsed,
            fps: rate,
            speed: unit_text(&speed, "x"),
            bitrate: unit_text(&bitrate, "kbits/s"),
        },
    )
}

/// The text of the first capture group in the leftmost match of a regular expression in a
/// haystack; `None` where the expression does not compile or does not match, or the group
/// took no part in the match. Fixed by the `regex` crate.
pub uninterp spec fn regex_first_capture(pattern: Seq<char>, haystack: Seq<char>) -> Option<
    Seq<char>,
>;

/// Trusted: `Regex::new`, `Regex::captures`, `Captures::get` and `Match::as_str` of the
/// `regex` crate. The result is the text that group 1 matched in the leftmost match of
/// `pattern` in `haystack`, named [`regex_first_capture`]; nothing more is claimed of it.
#[verifier::external_body]
fn first_capture(pattern: &str, haystack: &str) -> (found: Option<String>)
    ensures
        text_view(found) == regex_first_capture(pattern@, haystack@),
{
    let re = regex::Regex::new(pattern).ok()?;
    let caps = re.captures(haystack)?;
    caps.get(1).map(|m| m.as_str().to_string())
}

/// What a progress line reports. A line without the key `out_time_ms=` reports nothing.
/// Otherwise the fields are those that the four patterns capture: the elapsed time after
/// `out_time_ms=`, the frame rate after `fps=`, the speed between `speed=` and `x`, the
/// bitrate between `bitrate=` and `kbits/s`.
pub open spec fn line_progress(line: Seq<char>, total_duration: u64) -> Option<ProgressModel> {
    if !has_subseq(line, "out_time_ms="@) {
        None
    } else {
        progress_of(
            regex_first_capture(r"out_time_ms=(\d+)"@, line),
            regex_first_capture(r"fps=([\d.]+)"@, line),
            regex_first_capture(r"speed=([\d.]+)x"@, line),
            regex_first_capture(r"bitrate=([\d.]+)kbits/s"@, line),
            total_duration,
        )
    }
}

/// Reads one line of the transcoder's primary output stream. `total_duration` is the
/// source's duration in microseconds, 0 where it is unknown.
pub fn parse_progress(line: &str, total_duration: u64) -> (r: Option<EncodingProgress>)
    ensures
        report_view(r) == line_progress(line@, total_duration),
        !has_subseq(line@, "out_time_ms="@) ==> r is None,
{
    if !contains_text(line, "out_time_ms=") {
        return None;
    }
    let time = first_capture(r"out_time_ms=(\d+)", line);
    let fps = first_capture(r"fps=([\d.]+)", line);
    let speed = first_capture(r"speed=([\d.]+)x", line);
    let bitrate = first_capture(r"bitrate=([\d.]+)kbits/s", line);
    progress_from_captures(time, fps, speed, bitrate, total_duration)
}

} // verus!
