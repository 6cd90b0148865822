//! Supervision of one run of the transcoder: what to launch, what each line of its two
//! output streams means, and what its exit amounts to.
//!
//! The process itself and its pipes belong to the caller. The caller launches what
//! [`EncodeRun::start`] names, hands every line and the exit to [`encode_video`], and does
//! what comes back. Both streams are to be read to their end before the exit is handed
//! over, so that no line is lost and the process never blocks on a full pipe.

use crate::encoder::{build_ffmpeg_command, clone_strings, command_args,
    detect_hardware_encoders, detected_encoders, EncodingSettings};
use crate::progress::{line_progress, parse_progress, EncodingProgress, ProgressModel};
use crate::text::{chars_of, slice_of, string_of};
use vstd::prelude::*;

verus! {

/// The number of diagnostic lines that are kept for the report of a failure.
pub const LOG_LINES: usize = 20;

/// White space, as Unicode defines it.
pub open spec fn is_space(c: char) -> bool {
    let n = c as u32;
    (0x09 <= n <= 0x0D) || n == 0x20 || n == 0x85 || n == 0xA0 || n == 0x1680 || (0x2000 <= n
        <= 0x200A) || n == 0x2028 || n == 0x2029 || n == 0x202F || n == 0x205F || n == 0x3000
}

/// Whether a character is white space.
pub fn is_whitespace(c: char) -> (r: bool)
    ensures
        r == is_space(c),
{
    let n: u32 = c as u32;
    (0x09 <= n && n <= 0x0D) || n == 0x20 || n == 0x85 || n == 0xA0 || n == 0x1680 || (0x2000 <= n
        && n <= 0x200A) || n == 0x2028 || n == 0x2029 || n == 0x202F || n == 0x205F || n == 0x3000
}

/// The number of white-space characters at the start of a text.
pub open spec fn leading_space(s: Seq<char>) -> int
    decreases s.len(),
{
    if s.len() > 0 && is_space(s[0]) {
        1 + leading_space(s.drop_first())
    } else {
        0
    }
}

/// The number of white-space characters at the end of a text.
pub open spec fn trailing_space(s: Seq<char>) -> int
    decreases s.len(),
{
    if s.len() > 0 && is_space(s.last()) {
        1 + trailing_space(s.drop_last())
    } else {
        0
    }
}

/// The text without the white space at its start and at its end.
pub open spec fn trimmed(s: Seq<char>) -> Seq<char> {
    let rest = s.skip(leading_space(s));
    rest.take(rest.len() - trailing_space(rest))
}

/// Where white space stands up to a position and none stands at it, that many characters
/// are the leading white space.
pub proof fn lemma_leading_space(s: Seq<char>, n: int)
    requires
        0 <= n <= s.len(),
        forall|k: int| 0 <= k < n ==> is_space(s[k]),
        n < s.len() ==> !is_space(s[n]),
    ensures
        leading_space(s) == n,
    decreases s.len(),
{
    if n > 0 {
        let rest = s.drop_first();
        assert forall|k: int| 0 <= k < n - 1 implies is_space(rest[k]) by {
            assert(rest[k] == s[k + 1]);
        }
        lemma_leading_space(rest, n - 1);
    }
}

/// Where white space stands from a position on and none stands before it, the characters
/// from there are the trailing white space.
pub proof fn lemma_trailing_space(s: Seq<char>, n: int)
    requires
        0 <= n <= s.len(),
        forall|k: int| s.len() - n <= k < s.len() ==> is_space(s[k]),
        n < s.len() ==> !is_space(s[s.len() - n - 1]),
    ensures
        trailing_space(s) == n,
    decreases s.len(),
{
    if n > 0 {
        let rest = s.drop_last();
        lemma_trailing_space(rest, n - 1);
    }
}

/// Takes the white space off both ends of a line.
pub fn trim_line(line: &str) -> (r: String)
    ensures
        r@ == trimmed(line@),
{
    let v = chars_of(line);
    let mut from: usize = 0;
    while from < v.len() && is_whitespace(v[from])
        invariant
            from <= v.len(),
            forall|k: int| 0 <= k < from ==> is_space(v@[k]),
        decreases v.len() - from,
    {
        from += 1;
    }
    let mut to: usize = v.len();
    while to > from && is_whitespace(v[to - 1])
        invariant
            from <= to <= v.len(),
            forall|k: int| to <= k < v.len() ==> is_space(v@[k]),
        decreases to,
    {
        to -= 1;
    }
    proof {
        lemma_leading_space(v@, from as int);
        let rest = v@.skip(from as int);
        assert forall|k: int| rest.len() - (v.len() - to) <= k < rest.len() implies is_space(
            rest[k],
        ) by {
            assert(rest[k] == v@[k + from]);
        }
        lemma_trailing_space(rest, v.len() - to);
    }
    let out = slice_of(&v, from, to);
    assert(out@ =~= trimmed(v@));
    string_of(&out)
}

/// The lines joined into one text, with `separator` between every two.
pub open spec fn joined(lines: Seq<Seq<char>>, separator: Seq<char>) -> Seq<char>
    decreases lines.len(),
{
    if lines.len() == 0 {
        Seq::empty()
    } else if lines.len() == 1 {
        lines[0]
    } else {
        joined(lines.drop_last(), separator) + separator + lines.last()
    }
}

/// Joins lines into one text, with a line break between every two.
pub fn join_lines(lines: &Vec<String>) -> (r: String)
    ensures
        r@ == joined(lines.deep_view(), seq!['\n']),
{
    let ghost all = lines.deep_view();
    let mut out: Vec<char> = Vec::new();
    let mut i: usize = 0;
    assert(all.take(0) =~= Seq::empty());
    while i < lines.len()
        invariant
            i <= lines.len(),
            all == lines.deep_view(),
            out@ == joined(all.take(i as int), seq!['\n']),
        decreases lines.len() - i,
    {
        let ghost before = out@;
        if i > 0 {
            out.push('\n');
        }
        let mut line = chars_of(lines[i].as_str());
        out.append(&mut line);
        i += 1;
        proof {
            let next = all.take(i as int);
            assert(next.drop_last() =~= all.take(i - 1));
            assert(next.last() == all[i - 1]);
            if i > 1 {
                assert(out@ =~= before + seq!['\n'] + all[i - 1]);
            } else {
                assert(out@ =~= all[0]);
            }
        }
    }
    assert(all.take(lines.len() as int) =~= all);
    string_of(&out)
}

/// Why an encode failed.
#[derive(Debug)]
pub enum EncodeError {
    /// The transcoder could not be launched, or its streams or exit could not be had.
    Spawn { reason: String },
    /// The transcoder ran and exited without success. `log` holds its last diagnostic
    /// lines.
    Failed { status: String, log: Vec<String> },
}

/// The mathematical content of an [`EncodeError`].
pub enum ErrorModel {
    Spawn { reason: Seq<char> },
    Failed { status: Seq<char>, log: Seq<Seq<char>> },
}

impl View for EncodeError {
    type V = ErrorModel;

    open spec fn view(&self) -> ErrorModel {
        match self {
            EncodeError::Spawn { reason } => ErrorModel::Spawn { reason: reason@ },
            EncodeError::Failed { status, log } => ErrorModel::Failed {
                status: status@,
                log: log.deep_view(),
            },
        }
    }
}

impl ErrorModel {
    /// The error in words: the reason of a failure to launch; for a failed run the exit
    /// status and the diagnostic lines that were kept.
    pub open spec fn text(self) -> Seq<char> {
        match self {
            ErrorModel::Spawn { reason } => reason,
            ErrorModel::Failed { status, log } => "FFmpeg encoding failed with status: "@ + status
                + "\nLast 20 lines of error log:\n"@ + joined(log, seq!['\n']),
        }
    }
}

impl EncodeError {
    /// The error in words.
    pub fn message(&self) -> (s: String)
        ensures
            s@ == self@.text(),
    {
        match self {
            EncodeError::Spawn { reason } => reason.clone(),
            EncodeError::Failed { status, log } => {
                let mut t = chars_of("FFmpeg encoding failed with status: ");
                let mut a = chars_of(status.as_str());
                t.append(&mut a);
                let mut b = chars_of("\nLast 20 lines of error log:\n");
                t.append(&mut b);
                let mut c = chars_of(join_lines(log).as_str());
                t.append(&mut c);
                assert(t@ =~= self@.text());
                string_of(&t)
            },
        }
    }
}

/// The diagnostic lines kept after one more came in: the newest last, and the oldest gone
/// where there were twenty already.
pub open spec fn kept_lines(log: Seq<Seq<char>>, line: Seq<char>) -> Seq<Seq<char>> {
    if log.len() >= LOG_LINES {
        log.drop_first().push(line)
    } else {
        log.push(line)
    }
}

/// The last twenty of a run of lines, or all of them where they are fewer.
pub open spec fn last_lines(all: Seq<Seq<char>>) -> Seq<Seq<char>> {
    if all.len() > LOG_LINES {
        all.skip(all.len() - LOG_LINES)
    } else {
        all
    }
}

/// Keeping lines one by one keeps the last twenty of all that came in.
pub proof fn lemma_kept_lines_are_last(all: Seq<Seq<char>>, line: Seq<char>)
    ensures
        kept_lines(last_lines(all), line) == last_lines(all.push(line)),
{
    assert(kept_lines(last_lines(all), line) =~= last_lines(all.push(line)));
}

/// The state of one supervised run: the source's duration in microseconds and the last
/// diagnostic lines.
#[derive(Debug)]
pub struct EncodeRun {
    pub total_duration: u64,
    pub log: Vec<String>,
}

/// The mathematical content of an [`EncodeRun`].
pub struct EncodeModel {
    pub total_duration: u64,
    pub log: Seq<Seq<char>>,
}

impl View for EncodeRun {
    type V = EncodeModel;

    open spec fn view(&self) -> EncodeModel {
        EncodeModel { total_duration: self.total_duration, log: self.log.deep_view() }
    }
}

/// What was observed of the transcoder.
#[derive(Debug)]
pub enum EncodeEvent {
    /// The transcoder could not be launched, or its streams or exit could not be had.
    LaunchFailed { reason: String },
    /// A line of the primary output stream.
    Output { line: String },
    /// A line of the diagnostic stream.
    Diagnostic { line: String },
    /// The process has exited and both streams are read to their end. `status` is the exit
    /// status in words.
    Exited { success: bool, status: String },
}

/// The mathematical content of an [`EncodeEvent`].
pub enum EncodeEventModel {
    LaunchFailed { reason: Seq<char> },
    Output { line: Seq<char> },
    Diagnostic { line: Seq<char> },
    Exited { success: bool, status: Seq<char> },
}

impl View for EncodeEvent {
    type V = EncodeEventModel;

    open spec fn view(&self) -> EncodeEventModel {
        match self {
            EncodeEvent::LaunchFailed { reason } => EncodeEventModel::LaunchFailed {
                reason: reason@,
            },
            EncodeEvent::Output { line } => EncodeEventModel::Output { line: line@ },
            EncodeEvent::Diagnostic { line } => EncodeEventModel::Diagnostic { line: line@ },
            EncodeEvent::Exited { success, status } => EncodeEventModel::Exited {
                success: *success,
                status: status@,
            },
        }
    }
}

/// What the supervisor is to do about an event.
#[derive(Debug)]
pub enum EncodeAction {
    /// Nothing: the line carried no progress.
    Nothing,
    /// Hand the progress report on.
    Report { progress: EncodingProgress },
    /// Hand the diagnostic line on to the live log.
    Log { line: String },
    /// The encode is over, with this result.
    Finish { result: Result<(), EncodeError> },
}

/// The mathematical content of an [`EncodeAction`].
pub enum EncodeActionModel {
    Nothing,
    Report { progress: ProgressModel },
    Log { line: Seq<char> },
    Finish { failure: Option<ErrorModel> },
}

impl View for EncodeAction {
    type V = EncodeActionModel;

    open spec fn view(&self) -> EncodeActionModel {
        match self {
            EncodeAction::Nothing => EncodeActionModel::Nothing,
            EncodeAction::Report { progress } => EncodeActionModel::Report { progress: progress@ },
            EncodeAction::Log { line } => EncodeActionModel::Log { line: line@ },
            EncodeAction::Finish { result } => EncodeActionModel::Finish {
                failure: match result {
                    Ok(_) => None,
                    Err(e) => Some(e@),
                },
            },
        }
    }
}

/// The run after an event: a diagnostic line is kept, without the white space at its ends;
/// nothing else changes the run.
pub open spec fn run_after(run: EncodeModel, event: EncodeEventModel) -> EncodeModel {
    match event {
        EncodeEventModel::Diagnostic { line } => EncodeModel {
            total_duration: run.total_duration,
            log: kept_lines(run.log, trimmed(line)),
        },
        _ => run,
    }
}

/// What is to be done about an event. A line of the primary stream is reported where it
/// carries progress. A diagnostic line goes to the live log, without the white space at
/// its ends. An exit with success ends the encode well; any other exit, and a failure to
/// launch, ends it with an error.
pub open spec fn action_on(run: EncodeModel, event: EncodeEventModel) -> EncodeActionModel {
    match event {
        EncodeEventModel::LaunchFailed { reason } => EncodeActionModel::Finish {
            failure: Some(ErrorModel::Spawn { reason }),
        },
        EncodeEventModel::Output { line } => match line_progress(line, run.total_duration) {
            Some(progress) => EncodeActionModel::Report { progress },
            None => EncodeActionModel::Nothing,
        },
        EncodeEventModel::Diagnostic { line } => EncodeActionModel::Log { line: trimmed(line) },
        EncodeEventModel::Exited { success, status } => EncodeActionModel::Finish {
            failure: if success {
                None
            } else {
                Some(ErrorModel::Failed { status, log: run.log })
            },
        },
    }
}

impl EncodeRun {
    /// Prepares one run: picks the hardware encoders out of the transcoder's list of
    /// encoders, and builds the arguments to launch it with.
    pub fn start(
        input: &str,
        output: &str,
        settings: &EncodingSettings,
        encoder_listing: &str,
        total_duration: u64,
    ) -> (r: (EncodeRun, Vec<String>))
        ensures
            r.0@ == (EncodeModel { total_duration, log: Seq::empty() }),
            r.1.deep_view() == command_args(
                input@,
                output@,
                settings@,
                detected_encoders(encoder_listing@),
            ),
    {
        let hw_encoders = detect_hardware_encoders(encoder_listing);
        let args = build_ffmpeg_command(input, output, settings, hw_encoders.as_slice());
        let run = EncodeRun { total_duration, log: Vec::new() };
        assert(run.log.deep_view() =~= Seq::empty());
        (run, args)
    }
}

/// Takes the supervision of one run one event on, and says what is to be done about it.
pub fn encode_video(run: &mut EncodeRun, event: EncodeEvent) -> (action: EncodeAction)
    ensures
        final(run)@ == run_after(old(run)@, event@),
        action@ == action_on(old(run)@, event@),
{
    match event {
        EncodeEvent::LaunchFailed { reason } => EncodeAction::Finish {
            result: Err(EncodeError::Spawn { reason }),
        },
        EncodeEvent::Output { line } => match parse_progress(line.as_str(), run.total_duration) {
            Some(progress) => EncodeAction::Report { progress },
            None => EncodeAction::Nothing,
        },
        EncodeEvent::Diagnostic { line } => {
            let text = trim_line(line.as_str());
            let ghost before = run.log.deep_view();
            if run.log.len() >= LOG_LINES {
                run.log.remove(0);
                assert(run.log.deep_view() =~= before.drop_first());
            }
            let ghost rest = run.log.deep_view();
            run.log.push(text.clone());
            assert(run.log.deep_view() =~= rest.push(text@));
            EncodeAction::Log { line: text }
        },
        EncodeEvent::Exited { success, status } => {
            if success {
                EncodeAction::Finish { result: Ok(()) }
            } else {
                EncodeAction::Finish {
                    result: Err(EncodeError::Failed { status, log: clone_strings(run.log.as_slice()) }),
                }
            }
        },
    }
}

} // verus!
