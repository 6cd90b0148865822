//! Encoder selection, guard rails and the transcoder's argument list.

use crate::text::{chars_of, contains_text, decimal_text, has_subseq, push_decimal, same_text,
    string_of};
use vstd::prelude::*;

verus! {

/// How one job is to be encoded. Fixed once the job is created.
#[derive(Debug)]
pub struct EncodingSettings {
    /// Output container, also the extension of the output file.
    pub output_format: String,
    /// Software video codec; a hardware equivalent may be substituted for it.
    pub video_codec: String,
    pub audio_codec: String,
    /// Target width and height in pixels; `None` keeps the source's.
    pub resolution: Option<(u32, u32)>,
    /// Target bitrate in bits per second. Where present it drives rate control.
    pub bitrate: Option<u64>,
    /// Quality factor on the scale 0 to 51, lower is better. Used only without a bitrate.
    pub crf: Option<u8>,
    pub preset: String,
    /// Whether a hardware encoder is wanted.
    pub use_hardware: bool,
    /// Whether the source's metadata is stripped.
    pub remove_metadata: bool,
    /// Metadata keys and values written to the output.
    pub custom_metadata: Option<Vec<(String, String)>>,
}

/// The mathematical content of [`EncodingSettings`].
pub struct SettingsModel {
    pub output_format: Seq<char>,
    pub video_codec: Seq<char>,
    pub audio_codec: Seq<char>,
    pub resolution: Option<(u32, u32)>,
    pub bitrate: Option<u64>,
    pub crf: Option<u8>,
    pub preset: Seq<char>,
    pub use_hardware: bool,
    pub remove_metadata: bool,
    pub custom_metadata: Option<Seq<(Seq<char>, Seq<char>)>>,
}

impl View for EncodingSettings {
    type V = SettingsModel;

    open spec fn view(&self) -> SettingsModel {
        SettingsModel {
            output_format: self.output_format@,
            video_codec: self.video_codec@,
            audio_codec: self.audio_codec@,
            resolution: self.resolution,
            bitrate: self.bitrate,
            crf: self.crf,
            preset: self.preset@,
            use_hardware: self.use_hardware,
            remove_metadata: self.remove_metadata,
            custom_metadata: self.custom_metadata.deep_view(),
        }
    }
}

/// The settings a job gets when none are chosen: H.264 and AAC in an MP4 container at
/// quality factor 23, medium preset, hardware acceleration wanted, metadata kept.
pub open spec fn default_settings() -> SettingsModel {
    SettingsModel {
        output_format: "mp4"@,
        video_codec: "libx264"@,
        audio_codec: "aac"@,
        resolution: None,
        bitrate: None,
        crf: Some(23u8),
        preset: "medium"@,
        use_hardware: true,
        remove_metadata: false,
        custom_metadata: None,
    }
}

impl Default for EncodingSettings {
    fn default() -> (s: Self)
        ensures
            s@ == default_settings(),
    {
        EncodingSettings {
            output_format: String::from_str("mp4"),
            video_codec: String::from_str("libx264"),
            audio_codec: String::from_str("aac"),
            resolution: None,
            bitrate: None,
            crf: Some(23),
            preset: String::from_str("medium"),
            use_hardware: true,
            remove_metadata: false,
            custom_metadata: None,
        }
    }
}

impl Clone for EncodingSettings {
    fn clone(&self) -> (s: Self)
        ensures
            s@ == self@,
    {
        let custom_metadata = match &self.custom_metadata {
            Some(list) => Some(clone_pairs(list)),
            None => None,
        };
        EncodingSettings {
            output_format: self.output_format.clone(),
            video_codec: self.video_codec.clone(),
            audio_codec: self.audio_codec.clone(),
            resolution: self.resolution,
            bitrate: self.bitrate,
            crf: self.crf,
            preset: self.preset.clone(),
            use_hardware: self.use_hardware,
            remove_metadata: self.remove_metadata,
            custom_metadata,
        }
    }
}

/// A copy of a list of key and value pairs.
pub fn clone_pairs(list: &Vec<(String, String)>) -> (r: Vec<(String, String)>)
    ensures
        r.deep_view() == list.deep_view(),
{
    let mut r: Vec<(String, String)> = Vec::new();
    let mut i: usize = 0;
    while i < list.len()
        invariant
            i <= list.len(),
            r.len() == i,
            forall|k: int| 0 <= k < i ==> r[k].0@ == list[k].0@ && r[k].1@ == list[k].1@,
        decreases list.len() - i,
    {
        r.push((list[i].0.clone(), list[i].1.clone()));
        i += 1;
    }
    assert(r.deep_view() =~= list.deep_view());
    r
}

/// A copy of a list of strings.
pub fn clone_strings(list: &[String]) -> (r: Vec<String>)
    ensures
        r.deep_view() == list.deep_view(),
{
    let mut r: Vec<String> = Vec::new();
    let mut i: usize = 0;
    while i < list.len()
        invariant
            i <= list.len(),
            r.len() == i,
            forall|k: int| 0 <= k < i ==> r[k]@ == list[k]@,
        decreases list.len() - i,
    {
        r.push(list[i].clone());
        i += 1;
    }
    assert(r.deep_view() =~= list.deep_view());
    r
}

/// Whether `name` is one of the strings of `list`.
pub fn list_has(list: &[String], name: &str) -> (r: bool)
    ensures
        r == list.deep_view().contains(name@),
{
    let mut i: usize = 0;
    while i < list.len()
        invariant
            i <= list.len(),
            forall|k: int| 0 <= k < i ==> list.deep_view()[k] != name@,
        decreases list.len() - i,
    {
        if same_text(list[i].as_str(), name) {
            assert(list.deep_view()[i as int] == name@);
            return true;
        }
        i += 1;
    }
    false
}

/// The bitrate to encode at: the requested one, unless it would exceed a known source
/// bitrate. A source bitrate of zero is unknown and limits nothing.
pub open spec fn safe_bitrate(target: u64, original: u64) -> u64 {
    if target > original && original > 0 {
        original
    } else {
        target
    }
}

/// Refuses to inflate the bitrate beyond that of the source.
pub fn calculate_safe_bitrate(target: u64, original: u64) -> (r: u64)
    ensures
        r == safe_bitrate(target, original),
{
    if target > original && original > 0 {
        original
    } else {
        target
    }
}

/// Why settings were refused before anything was launched.
#[derive(Debug)]
pub enum ValidationError {
    /// The target resolution exceeds the source's in width or in height.
    Upscale { original: (u32, u32), target: (u32, u32) },
}

/// The target asks for more pixels than the source has, in width or in height.
pub open spec fn is_upscale(target: (u32, u32), original: (u32, u32)) -> bool {
    target.0 > original.0 || target.1 > original.1
}

/// Accepts a target resolution that fits within the source's and hands it back unchanged;
/// refuses any other. Nothing is clamped.
pub fn validate_resolution(target: (u32, u32), original: (u32, u32)) -> (r: Result<
    (u32, u32),
    ValidationError,
>)
    ensures
        is_upscale(target, original) ==> r == Err::<(u32, u32), ValidationError>(
            ValidationError::Upscale { original, target },
        ),
        !is_upscale(target, original) ==> r == Ok::<(u32, u32), ValidationError>(target),
{
    if target.0 > original.0 || target.1 > original.1 {
        Err(ValidationError::Upscale { original, target })
    } else {
        Ok(target)
    }
}

/// The settings as they may be launched for a source of the given resolution and bitrate:
/// none where the target resolution would upscale; else the same settings, with the target
/// bitrate held down to the source's.
pub open spec fn guarded(settings: SettingsModel, source: (u32, u32), source_bitrate: u64) -> Option<
    SettingsModel,
> {
    if settings.resolution is Some && is_upscale(settings.resolution->0, source) {
        None
    } else {
        Some(
            SettingsModel {
                bitrate: match settings.bitrate {
                    Some(target) => Some(safe_bitrate(target, source_bitrate)),
                    None => None,
                },
                ..settings
            },
        )
    }
}

/// Runs the guard rails over the settings for one source, before anything is built or
/// launched from them.
pub fn checked_settings(settings: &EncodingSettings, source: (u32, u32), source_bitrate: u64) -> (r:
    Result<EncodingSettings, ValidationError>)
    ensures
        match guarded(settings@, source, source_bitrate) {
            Some(safe) => r is Ok && r->Ok_0@ == safe,
            None => r == Err::<EncodingSettings, ValidationError>(
                ValidationError::Upscale { original: source, target: settings.resolution->0 },
            ),
        },
{
    if let Some(target) = settings.resolution {
        match validate_resolution(target, source) {
            Ok(_) => {},
            Err(e) => {
                return Err(e);
            },
        }
    }
    let mut safe = settings.clone();
    if let Some(target) = settings.bitrate {
        safe.bitrate = Some(calculate_safe_bitrate(target, source_bitrate));
    }
    Ok(safe)
}

/// The text of "WIDTHxHEIGHT".
pub open spec fn resolution_text(r: (u32, u32)) -> Seq<char> {
    decimal_text(r.0 as nat) + seq!['x'] + decimal_text(r.1 as nat)
}

/// What [`ValidationError::message`] says of an upscale.
pub open spec fn upscale_message(original: (u32, u32), target: (u32, u32)) -> Seq<char> {
    "Cannot upscale video from "@ + resolution_text(original) + " to "@ + resolution_text(target)
}

impl ValidationError {
    /// What [`ValidationError::message`] says.
    pub open spec fn text(self) -> Seq<char> {
        match self {
            ValidationError::Upscale { original, target } => upscale_message(original, target),
        }
    }

    /// The error in words.
    pub fn message(&self) -> (s: String)
        ensures
            s@ == self.text(),
    {
        match self {
            ValidationError::Upscale { original, target } => {
                let mut t = chars_of("Cannot upscale video from ");
                push_decimal(&mut t, original.0 as u64);
                t.push('x');
                push_decimal(&mut t, original.1 as u64);
                let mut to = chars_of(" to ");
                t.append(&mut to);
                push_decimal(&mut t, target.0 as u64);
                t.push('x');
                push_decimal(&mut t, target.1 as u64);
                assert(t@ =~= upscale_message(*original, *target));
                string_of(&t)
            },
        }
    }
}

/// The first of three candidates that is among the available encoders, in the order given,
/// or the fallback where none of them is.
pub open spec fn preferred(
    available: Seq<Seq<char>>,
    first: Seq<char>,
    second: Seq<char>,
    third: Seq<char>,
    fallback: Seq<char>,
) -> Seq<char> {
    if available.contains(first) {
        first
    } else if available.contains(second) {
        second
    } else if available.contains(third) {
        third
    } else {
        fallback
    }
}

/// The encoder to run. Without a wish for hardware, or without any hardware encoder, it is
/// the configured codec as it stands. Otherwise the H.264 and HEVC families map to their
/// hardware encoders, GPU vendor before platform API before open hardware API, and fall
/// back to the configured codec where none of the three is available. Any other codec
/// stays as it is.
pub open spec fn selected_encoder(
    codec: Seq<char>,
    use_hardware: bool,
    available: Seq<Seq<char>>,
) -> Seq<char> {
    if !use_hardware || available.len() == 0 {
        codec
    } else if codec == "libx264"@ || codec == "h264"@ {
        preferred(available, "h264_nvenc"@, "h264_qsv"@, "h264_vaapi"@, codec)
    } else if codec == "libx265"@ || codec == "hevc"@ {
        preferred(available, "hevc_nvenc"@, "hevc_qsv"@, "hevc_vaapi"@, codec)
    } else {
        codec
    }
}

fn prefer(available: &[String], first: &str, second: &str, third: &str, fallback: &String) -> (r:
    String)
    ensures
        r@ == preferred(available.deep_view(), first@, second@, third@, fallback@),
{
    if list_has(available, first) {
        String::from_str(first)
    } else if list_has(available, second) {
        String::from_str(second)
    } else if list_has(available, third) {
        String::from_str(third)
    } else {
        fallback.clone()
    }
}

/// Selects the encoder for the settings among the hardware encoders that are available.
pub fn select_encoder(settings: &EncodingSettings, hw_encoders: &[String]) -> (encoder: String)
    ensures
        encoder@ == selected_encoder(
            settings@.video_codec,
            settings@.use_hardware,
            hw_encoders.deep_view(),
        ),
{
    if !settings.use_hardware || hw_encoders.len() == 0 {
        return settings.video_codec.clone();
    }
    let codec = settings.video_codec.as_str();
    if same_text(codec, "libx264") || same_text(codec, "h264") {
        prefer(hw_encoders, "h264_nvenc", "h264_qsv", "h264_vaapi", &settings.video_codec)
    } else if same_text(codec, "libx265") || same_text(codec, "hevc") {
        prefer(hw_encoders, "hevc_nvenc", "hevc_qsv", "hevc_vaapi", &settings.video_codec)
    } else {
        settings.video_codec.clone()
    }
}

/// With hardware acceleration switched off the configured codec is used as it stands,
/// whatever hardware was detected.
pub proof fn lemma_software_when_hardware_disabled(codec: Seq<char>, available: Seq<Seq<char>>)
    ensures
        selected_encoder(codec, false, available) == codec,
{
}

/// Where the GPU vendor's encoder of the codec's family is available it is selected,
/// whatever else is available beside it, for both the H.264 and the HEVC family.
pub proof fn lemma_gpu_vendor_encoder_preferred(codec: Seq<char>, available: Seq<Seq<char>>)
    ensures
        (codec == "libx264"@ || codec == "h264"@) && available.contains("h264_nvenc"@)
            ==> selected_encoder(codec, true, available) == "h264_nvenc"@,
        (codec == "libx265"@ || codec == "hevc"@) && available.contains("hevc_nvenc"@)
            ==> selected_encoder(codec, true, available) == "hevc_nvenc"@,
{
    reveal_strlit("libx264");
    reveal_strlit("h264");
    reveal_strlit("libx265");
    reveal_strlit("hevc");
    assert("libx265"@[6] != "libx264"@[6]);
    assert("hevc"@[1] != "h264"@[1]);
    assert("libx265"@.len() != "h264"@.len());
    assert("hevc"@.len() != "libx264"@.len());
}

/// A codec outside the H.264 and HEVC families is never substituted.
pub proof fn lemma_unknown_codec_passes_through(
    codec: Seq<char>,
    use_hardware: bool,
    available: Seq<Seq<char>>,
)
    requires
        codec != "libx264"@,
        codec != "h264"@,
        codec != "libx265"@,
        codec != "hevc"@,
    ensures
        selected_encoder(codec, use_hardware, available) == codec,
{
}

/// The selected encoder is the configured codec or one of the available encoders: nothing
/// is ever launched that was neither asked for nor detected.
pub proof fn lemma_selected_is_configured_or_available(
    codec: Seq<char>,
    use_hardware: bool,
    available: Seq<Seq<char>>,
)
    ensures
        selected_encoder(codec, use_hardware, available) == codec || available.contains(
            selected_encoder(codec, use_hardware, available),
        ),
{
}

/// The one name, if the listing mentions it; nothing otherwise.
pub open spec fn mentioned(listing: Seq<char>, name: Seq<char>) -> Seq<Seq<char>> {
    if has_subseq(listing, name) {
        seq![name]
    } else {
        Seq::empty()
    }
}

/// The known hardware encoders that the transcoder's list of encoders mentions: the GPU
/// vendor's, the platform API's and the open hardware API's, each for H.264 and then HEVC.
pub open spec fn detected_encoders(listing: Seq<char>) -> Seq<Seq<char>> {
    mentioned(listing, "h264_nvenc"@) + mentioned(listing, "hevc_nvenc"@) + mentioned(
        listing,
        "h264_qsv"@,
    ) + mentioned(listing, "hevc_qsv"@) + mentioned(listing, "h264_vaapi"@) + mentioned(
        listing,
        "hevc_vaapi"@,
    )
}

fn note_encoder(found: &mut Vec<String>, listing: &str, name: &str)
    ensures
        final(found).deep_view() == old(found).deep_view() + mentioned(listing@, name@),
{
    if contains_text(listing, name) {
        found.push(String::from_str(name));
    }
    assert(found.deep_view() =~= old(found).deep_view() + mentioned(listing@, name@));
}

/// Picks the known hardware encoders out of the transcoder's list of compiled encoders.
/// An empty listing, as from a transcoder that could not be run, yields none.
pub fn detect_hardware_encoders(listing: &str) -> (encoders: Vec<String>)
    ensures
        encoders.deep_view() == detected_encoders(listing@),
{
    let mut encoders: Vec<String> = Vec::new();
    assert(encoders.deep_view() =~= Seq::<Seq<char>>::empty());
    note_encoder(&mut encoders, listing, "h264_nvenc");
    note_encoder(&mut encoders, listing, "hevc_nvenc");
    note_encoder(&mut encoders, listing, "h264_qsv");
    note_encoder(&mut encoders, listing, "hevc_qsv");
    note_encoder(&mut encoders, listing, "h264_vaapi");
    note_encoder(&mut encoders, listing, "hevc_vaapi");
    assert(encoders.deep_view() =~= detected_encoders(listing@));
    encoders
}

/// The scale filter: the target resolution where one is set, else both dimensions of the
/// source rounded down to an even number.
pub open spec fn scale_filter(resolution: Option<(u32, u32)>) -> Seq<char> {
    match resolution {
        Some(r) => "scale="@ + decimal_text(r.0 as nat) + seq![':'] + decimal_text(r.1 as nat),
        None => "scale=trunc(iw/2)*2:trunc(ih/2)*2"@,
    }
}

/// An encoder of one of the hardware families, which take no quality factor.
pub open spec fn is_hardware_encoder(encoder: Seq<char>) -> bool {
    has_subseq(encoder, "nvenc"@) || has_subseq(encoder, "qsv"@) || has_subseq(encoder, "vaapi"@)
}

/// Rate control: the bitrate in kilobits where one is set; else the quality factor, and that
/// only for a software encoder; else nothing.
pub open spec fn rate_control_args(bitrate: Option<u64>, crf: Option<u8>, encoder: Seq<char>) -> Seq<
    Seq<char>,
> {
    match bitrate {
        Some(b) => seq!["-b:v"@, decimal_text((b / 1000) as nat) + seq!['k']],
        None => match crf {
            Some(q) => if is_hardware_encoder(encoder) {
                Seq::empty()
            } else {
                seq!["-crf"@, decimal_text(q as nat)]
            },
            None => Seq::empty(),
        },
    }
}

/// At most one of bitrate and quality factor drives rate control, and the bitrate comes
/// first: with a bitrate set the arguments are the bitrate's, whatever the quality factor.
pub proof fn lemma_one_rate_control(bitrate: Option<u64>, crf: Option<u8>, encoder: Seq<char>)
    ensures
        rate_control_args(bitrate, crf, encoder).len() == 0 || rate_control_args(
            bitrate,
            crf,
            encoder,
        ).len() == 2,
        bitrate is Some ==> rate_control_args(bitrate, crf, encoder) == rate_control_args(
            bitrate,
            None,
            encoder,
        ),
        bitrate is Some ==> rate_control_args(bitrate, crf, encoder)[0] == "-b:v"@,
        bitrate is None && rate_control_args(bitrate, crf, encoder).len() == 2
            ==> rate_control_args(bitrate, crf, encoder)[0] == "-crf"@ && crf is Some
            && !is_hardware_encoder(encoder),
{
}

/// One `-metadata KEY=VALUE` pair of arguments for each override, in order.
pub open spec fn metadata_args(list: Seq<(Seq<char>, Seq<char>)>) -> Seq<Seq<char>>
    decreases list.len(),
{
    if list.len() == 0 {
        Seq::empty()
    } else {
        metadata_args(list.drop_last()) + seq![
            "-metadata"@,
            list.last().0 + seq!['='] + list.last().1,
        ]
    }
}

/// The arguments that strip the source's metadata, where that is asked for.
pub open spec fn strip_args(remove_metadata: bool) -> Seq<Seq<char>> {
    if remove_metadata {
        seq!["-map_metadata"@, "-1"@]
    } else {
        Seq::empty()
    }
}

/// The metadata overrides' arguments, where there are overrides.
pub open spec fn override_args(custom: Option<Seq<(Seq<char>, Seq<char>)>>) -> Seq<Seq<char>> {
    match custom {
        Some(list) => metadata_args(list),
        None => Seq::empty(),
    }
}

/// The transcoder's argument list: input, forced overwrite, the selected video encoder, a
/// standard pixel format, the scale filter, rate control, preset, audio codec, metadata
/// handling, progress reports on the primary output stream, and the output path last.
pub open spec fn command_args(
    input: Seq<char>,
    output: Seq<char>,
    settings: SettingsModel,
    available: Seq<Seq<char>>,
) -> Seq<Seq<char>> {
    let encoder = selected_encoder(settings.video_codec, settings.use_hardware, available);
    seq![
        "-i"@,
        input,
        "-y"@,
        "-c:v"@,
        encoder,
        "-pix_fmt"@,
        "yuv420p"@,
        "-vf"@,
        scale_filter(settings.resolution),
    ] + rate_control_args(settings.bitrate, settings.crf, encoder) + seq![
        "-preset"@,
        settings.preset,
        "-c:a"@,
        settings.audio_codec,
    ] + strip_args(settings.remove_metadata) + override_args(settings.custom_metadata) + seq![
        "-progress"@,
        "pipe:1"@,
        output,
    ]
}

fn push_arg(args: &mut Vec<String>, arg: String)
    ensures
        final(args).deep_view() == old(args).deep_view().push(arg@),
{
    args.push(arg);
    assert(args.deep_view() =~= old(args).deep_view().push(arg@));
}

fn push_text(args: &mut Vec<String>, arg: &str)
    ensures
        final(args).deep_view() == old(args).deep_view().push(arg@),
{
    push_arg(args, String::from_str(arg));
}

fn scale_argument(resolution: Option<(u32, u32)>) -> (s: String)
    ensures
        s@ == scale_filter(resolution),
{
    match resolution {
        Some((width, height)) => {
            let mut t = chars_of("scale=");
            push_decimal(&mut t, width as u64);
            t.push(':');
            push_decimal(&mut t, height as u64);
            assert(t@ =~= scale_filter(resolution));
            string_of(&t)
        },
        None => String::from_str("scale=trunc(iw/2)*2:trunc(ih/2)*2"),
    }
}

fn push_rate_control(args: &mut Vec<String>, settings: &EncodingSettings, encoder: &String)
    ensures
        final(args).deep_view() == old(args).deep_view() + rate_control_args(
            settings.bitrate,
            settings.crf,
            encoder@,
        ),
{
    let ghost before = args.deep_view();
    if let Some(bitrate) = settings.bitrate {
        push_text(args, "-b:v");
        let mut t: Vec<char> = Vec::new();
        push_decimal(&mut t, bitrate / 1000);
        t.push('k');
        assert(t@ =~= decimal_text((bitrate / 1000) as nat) + seq!['k']);
        push_arg(args, string_of(&t));
    } else if let Some(crf) = settings.crf {
        let name = encoder.as_str();
        if !contains_text(name, "nvenc") && !contains_text(name, "qsv") && !contains_text(
            name,
            "vaapi",
        ) {
            push_text(args, "-crf");
            let mut t: Vec<char> = Vec::new();
            push_decimal(&mut t, crf as u64);
            assert(t@ =~= decimal_text(crf as nat));
            push_arg(args, string_of(&t));
        }
    }
    assert(args.deep_view() =~= before + rate_control_args(
        settings.bitrate,
        settings.crf,
        encoder@,
    ));
}

fn push_overrides(args: &mut Vec<String>, list: &Vec<(String, String)>)
    ensures
        final(args).deep_view() == old(args).deep_view() + metadata_args(list.deep_view()),
{
    let ghost before = args.deep_view();
    let ghost pairs = list.deep_view();
    let mut i: usize = 0;
    assert(pairs.take(0) =~= Seq::empty());
    assert(args.deep_view() =~= before + metadata_args(pairs.take(0)));
    while i < list.len()
        invariant
            i <= list.len(),
            pairs == list.deep_view(),
            pairs.len() == list.len(),
            args.deep_view() == before + metadata_args(pairs.take(i as int)),
        decreases list.len() - i,
    {
        let ghost so_far = args.deep_view();
        push_text(args, "-metadata");
        let mut t = chars_of(list[i].0.as_str());
        t.push('=');
        let mut value = chars_of(list[i].1.as_str());
        t.append(&mut value);
        assert(t@ =~= pairs[i as int].0 + seq!['='] + pairs[i as int].1);
        push_arg(args, string_of(&t));
        i += 1;
        proof {
            let next = pairs.take(i as int);
            assert(next.drop_last() =~= pairs.take(i - 1));
            assert(next.last() == pairs[i - 1]);
            assert(args.deep_view() =~= so_far + seq!["-metadata"@, t@]);
            assert(args.deep_view() =~= before + metadata_args(next));
        }
    }
    assert(pairs.take(list.len() as int) =~= pairs);
}

/// Builds the transcoder's argument list for one encode.
pub fn build_ffmpeg_command(
    input: &str,
    output: &str,
    settings: &EncodingSettings,
    hw_encoders: &[String],
) -> (args: Vec<String>)
    ensures
        args.deep_view() == command_args(input@, output@, settings@, hw_encoders.deep_view()),
{
    let encoder = select_encoder(settings, hw_encoders);
    let mut args: Vec<String> = Vec::new();
    assert(args.deep_view() =~= Seq::<Seq<char>>::empty());
    push_text(&mut args, "-i");
    push_text(&mut args, input);
    push_text(&mut args, "-y");
    push_text(&mut args, "-c:v");
    push_arg(&mut args, encoder.clone());
    push_text(&mut args, "-pix_fmt");
    push_text(&mut args, "yuv420p");
    push_text(&mut args, "-vf");
    push_arg(&mut args, scale_argument(settings.resolution));
    let ghost head = args.deep_view();
    assert(head =~= seq![
        "-i"@,
        input@,
        "-y"@,
        "-c:v"@,
        encoder@,
        "-pix_fmt"@,
        "yuv420p"@,
        "-vf"@,
        scale_filter(settings.resolution),
    ]);
    push_rate_control(&mut args, settings, &encoder);
    let ghost rated = args.deep_view();
    push_text(&mut args, "-preset");
    push_arg(&mut args, settings.preset.clone());
    push_text(&mut args, "-c:a");
    push_arg(&mut args, settings.audio_codec.clone());
    let ghost codecs = args.deep_view();
    assert(codecs =~= rated + seq!["-preset"@, settings.preset@, "-c:a"@, settings.audio_codec@]);
    if settings.remove_metadata {
        push_text(&mut args, "-map_metadata");
        push_text(&mut args, "-1");
    }
    let ghost stripped = args.deep_view();
    assert(stripped =~= codecs + strip_args(settings.remove_metadata));
    if let Some(list) = &settings.custom_metadata {
        push_overrides(&mut args, list);
    }
    let ghost overridden = args.deep_view();
    assert(overridden =~= stripped + override_args(settings@.custom_metadata));
    push_text(&mut args, "-progress");
    push_text(&mut args, "pipe:1");
    push_text(&mut args, output);
    assert(args.deep_view() =~= overridden + seq!["-progress"@, "pipe:1"@, output@]);
    args
}

} // verus!
