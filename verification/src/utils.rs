//! Small helpers around the queue: sizes and durations in words, resolutions, file names.

use crate::encoder::list_has;
use crate::text::{chars_of, decimal_text, lemma_decimal_text_value, parse_unsigned,
    parsed_unsigned, push_decimal, same_text, split_at_first, split_once, string_of};
use vstd::prelude::*;

verus! {

/// The quotient of two numbers, rounded to the nearest whole number, and to the even one of
/// the two where it lies half way between them.
pub open spec fn round_half_even(numerator: nat, denominator: nat) -> nat {
    let q = numerator / denominator;
    let r = numerator % denominator;
    if 2 * r < denominator {
        q
    } else if 2 * r > denominator {
        q + 1
    } else if q % 2 == 0 {
        q
    } else {
        q + 1
    }
}

/// The distance between neighbouring double-precision numbers around `n`: 1 below 2 to the
/// 53rd, and doubling with every doubling of `n` from there.
pub open spec fn float_step(n: nat) -> nat
    decreases n,
{
    if n < 0x20_0000_0000_0000 {
        1
    } else {
        2 * float_step(n / 2)
    }
}

/// The double-precision number nearest to `n`, as a whole number. Below 2 to the 53rd it is
/// `n` itself.
pub open spec fn nearest_double(n: nat) -> nat {
    round_half_even(n, float_step(n)) * float_step(n)
}

/// How many times a size in bytes is divided by 1024 before it is written: until it is
/// below 1024, and at most four times.
pub open spec fn unit_index(bytes: u64) -> nat {
    if bytes < 1024 {
        0
    } else if bytes < 1024 * 1024 {
        1
    } else if bytes < 1024 * 1024 * 1024 {
        2
    } else if bytes < 1024 * 1024 * 1024 * 1024 {
        3
    } else {
        4
    }
}

/// The number of bytes in one unit.
pub open spec fn unit_size(index: nat) -> nat {
    if index == 0 {
        1
    } else if index == 1 {
        1024
    } else if index == 2 {
        1024 * 1024
    } else if index == 3 {
        1024 * 1024 * 1024
    } else {
        1024 * 1024 * 1024 * 1024
    }
}

/// The name of a unit.
pub open spec fn unit_name(index: nat) -> Seq<char> {
    if index == 0 {
        "B"@
    } else if index == 1 {
        "KB"@
    } else if index == 2 {
        "MB"@
    } else if index == 3 {
        "GB"@
    } else {
        "TB"@
    }
}

/// A number in at least two decimal digits.
pub open spec fn two_digits(n: nat) -> Seq<char> {
    if n < 10 {
        seq!['0'] + decimal_text(n)
    } else {
        decimal_text(n)
    }
}

/// A size in hundredths of its unit: the nearest double to the number of bytes, divided by
/// the unit's size and rounded to two decimal places, half way cases to the even digit.
pub open spec fn size_hundredths(bytes: u64) -> nat {
    round_half_even(nearest_double(bytes as nat) * 100, unit_size(unit_index(bytes)))
}

/// A size in words: `0 B` for nothing, else the size in its unit with two decimal places
/// and the unit's name.
pub open spec fn file_size_text(bytes: u64) -> Seq<char> {
    if bytes == 0 {
        "0 B"@
    } else {
        decimal_text(size_hundredths(bytes) / 100) + seq!['.'] + two_digits(
            size_hundredths(bytes) % 100,
        ) + seq![' '] + unit_name(unit_index(bytes))
    }
}

/// Computes [`round_half_even`].
pub fn rounded_quotient(numerator: u128, denominator: u128) -> (q: u128)
    requires
        denominator > 0,
        numerator < u128::MAX,
        denominator <= u128::MAX / 2,
    ensures
        q == round_half_even(numerator as nat, denominator as nat),
{
    let whole: u128 = numerator / denominator;
    let rest: u128 = numerator % denominator;
    if 2 * rest < denominator {
        whole
    } else if 2 * rest > denominator {
        whole + 1
    } else if whole % 2 == 0 {
        whole
    } else {
        whole + 1
    }
}

/// Computes [`nearest_double`].
pub fn to_nearest_double(n: u64) -> (r: u128)
    ensures
        r == nearest_double(n as nat),
        r <= n + 4096,
        n < 0x20_0000_0000_0000 ==> r == n,
{
    let mut scale: u64 = 1;
    let mut top: u64 = n;
    while top >= 0x20_0000_0000_0000
        invariant
            1 <= scale,
            top * scale <= n,
            scale == 1 || top >= 0x10_0000_0000_0000,
            float_step(n as nat) == scale * float_step(top as nat),
        decreases top,
    {
        assert(scale < 2048) by (nonlinear_arith)
            requires
                top * scale <= n,
                n <= 0xFFFF_FFFF_FFFF_FFFF,
                top >= 0x20_0000_0000_0000,
                scale >= 1,
        {
        }
        assert((top / 2) * (scale * 2) <= top * scale) by (nonlinear_arith)
            requires
                top >= 0,
                scale >= 1,
        {
        }
        assert(scale * float_step(top as nat) == (scale * 2) * float_step((top / 2) as nat))
            by (nonlinear_arith)
            requires
                float_step(top as nat) == 2 * float_step((top / 2) as nat),
        {
        }
        top = top / 2;
        scale = scale * 2;
    }
    assert(scale <= 4096) by (nonlinear_arith)
        requires
            top * scale <= n,
            n <= 0xFFFF_FFFF_FFFF_FFFF,
            top >= 0x10_0000_0000_0000 || scale == 1,
            scale >= 1,
    {
    }
    assert(float_step(n as nat) == scale) by (nonlinear_arith)
        requires
            float_step(n as nat) == scale * float_step(top as nat),
            float_step(top as nat) == 1,
    {
    }
    let mantissa = rounded_quotient(n as u128, scale as u128);
    let ghost floor: int = n as int / scale as int;
    assert(mantissa <= floor + 1);
    assert(floor * scale <= n) by (nonlinear_arith)
        requires
            floor == n as int / scale as int,
            scale >= 1,
            n >= 0,
    {
    }
    assert(mantissa * scale <= n + scale) by (nonlinear_arith)
        requires
            mantissa <= floor + 1,
            floor * scale <= n,
            scale >= 1,
    {
    }
    mantissa * (scale as u128)
}

/// Appends a number in at least two decimal digits.
fn push_two_digits(out: &mut Vec<char>, n: u64)
    ensures
        final(out)@ == old(out)@ + two_digits(n as nat),
{
    if n < 10 {
        out.push('0');
    }
    push_decimal(out, n);
    assert(out@ =~= old(out)@ + two_digits(n as nat));
}

/// Writes a size in bytes the way people read it: in the largest unit up to TB in which it
/// is at least 1, with two decimal places.
pub fn format_file_size(bytes: u64) -> (s: String)
    ensures
        s@ == file_size_text(bytes),
{
    if bytes == 0 {
        return String::from_str("0 B");
    }
    let value = to_nearest_double(bytes);
    let (size, name): (u128, &str) = if bytes < 1024 {
        (1, "B")
    } else if bytes < 1024 * 1024 {
        (1024, "KB")
    } else if bytes < 1024 * 1024 * 1024 {
        (1024 * 1024, "MB")
    } else if bytes < 1024 * 1024 * 1024 * 1024 {
        (1024 * 1024 * 1024, "GB")
    } else {
        (1024 * 1024 * 1024 * 1024, "TB")
    };
    assert(size == unit_size(unit_index(bytes)));
    assert(name@ == unit_name(unit_index(bytes)));
    let hundredths = rounded_quotient(value * 100, size);
    assert(hundredths <= (value * 100) / (size as int) + 1);
    assert(hundredths / 100 <= u64::MAX) by {
        if size == 1 {
            assert(value == bytes);
        }
    }
    let whole: u64 = (hundredths / 100) as u64;
    let part: u64 = (hundredths % 100) as u64;
    let mut t: Vec<char> = Vec::new();
    push_decimal(&mut t, whole);
    t.push('.');
    push_two_digits(&mut t, part);
    t.push(' ');
    let mut unit = chars_of(name);
    t.append(&mut unit);
    assert(t@ =~= file_size_text(bytes));
    string_of(&t)
}

/// A duration in words: minutes and seconds in two digits each, with the hours in front
/// where there is at least one.
pub open spec fn duration_text(seconds: u64) -> Seq<char> {
    let hours = (seconds / 3600) as nat;
    let minutes = ((seconds % 3600) / 60) as nat;
    let secs = (seconds % 60) as nat;
    if hours > 0 {
        two_digits(hours) + seq![':'] + two_digits(minutes) + seq![':'] + two_digits(secs)
    } else {
        two_digits(minutes) + seq![':'] + two_digits(secs)
    }
}

/// Writes a duration in whole seconds as `MM:SS`, or as `HH:MM:SS` from one hour on.
pub fn format_duration(seconds: u64) -> (s: String)
    ensures
        s@ == duration_text(seconds),
{
    let hours: u64 = seconds / 3600;
    let minutes: u64 = (seconds % 3600) / 60;
    let secs: u64 = seconds % 60;
    let mut t: Vec<char> = Vec::new();
    if hours > 0 {
        push_two_digits(&mut t, hours);
        t.push(':');
    }
    push_two_digits(&mut t, minutes);
    t.push(':');
    push_two_digits(&mut t, secs);
    assert(t@ =~= duration_text(seconds));
    string_of(&t)
}

/// The resolution that a text `WIDTHxHEIGHT` writes: both numbers must be numerals that
/// fit 32 bits, with one `x` between them and nothing else.
pub open spec fn resolution_of(s: Seq<char>) -> Option<(u32, u32)> {
    match split_at_first(s, 'x') {
        Some(parts) => match (
            parsed_unsigned(parts.0, u32::MAX as nat),
            parsed_unsigned(parts.1, u32::MAX as nat),
        ) {
            (Some(width), Some(height)) => Some((width as u32, height as u32)),
            _ => None,
        },
        None => None,
    }
}

/// Reads a resolution such as `1920x1080`.
pub fn parse_resolution(res_str: &str) -> (r: Option<(u32, u32)>)
    ensures
        r == resolution_of(res_str@),
{
    let (width, height) = match split_once(res_str, 'x') {
        Some(parts) => parts,
        None => {
            return None;
        },
    };
    match (
        parse_unsigned(width.as_str(), 0xFFFF_FFFF),
        parse_unsigned(height.as_str(), 0xFFFF_FFFF),
    ) {
        (Some(w), Some(h)) => Some((w as u32, h as u32)),
        _ => None,
    }
}

/// The common resolutions, largest first, each with the name to show for it.
pub open spec fn resolution_presets() -> Seq<(Seq<char>, (u32, u32))> {
    seq![
        ("4K (3840x2160)"@, (3840u32, 2160u32)),
        ("1080p (1920x1080)"@, (1920u32, 1080u32)),
        ("720p (1280x720)"@, (1280u32, 720u32)),
        ("480p (854x480)"@, (854u32, 480u32)),
        ("360p (640x360)"@, (640u32, 360u32)),
    ]
}

/// The presets of a list as models, in order.
pub open spec fn preset_models(list: Seq<(&'static str, (u32, u32))>) -> Seq<
    (Seq<char>, (u32, u32)),
> {
    Seq::new(list.len(), |i: int| (list[i].0@, list[i].1))
}

/// The resolutions that are offered for choice.
pub fn get_resolution_presets() -> (presets: Vec<(&'static str, (u32, u32))>)
    ensures
        preset_models(presets@) == resolution_presets(),
{
    let mut presets: Vec<(&'static str, (u32, u32))> = Vec::new();
    presets.push(("4K (3840x2160)", (3840, 2160)));
    presets.push(("1080p (1920x1080)", (1920, 1080)));
    presets.push(("720p (1280x720)", (1280, 720)));
    presets.push(("480p (854x480)", (854, 480)));
    presets.push(("360p (640x360)", (640, 360)));
    assert(preset_models(presets@) =~= resolution_presets());
    presets
}

/// A character that no file name may hold.
pub open spec fn is_reserved(c: char) -> bool {
    c == '/' || c == '\\' || c == ':' || c == '*' || c == '?' || c == '"' || c == '<' || c == '>'
        || c == '|'
}

/// The text with an underscore in the place of every reserved character.
pub open spec fn sanitized(s: Seq<char>) -> Seq<char> {
    Seq::new(
        s.len(),
        |i: int|
            if is_reserved(s[i]) {
                '_'
            } else {
                s[i]
            },
    )
}

/// Makes a text fit for a file name: every reserved character becomes an underscore, and
/// nothing else changes.
pub fn sanitize_filename(filename: &str) -> (s: String)
    ensures
        s@ == sanitized(filename@),
{
    let v = chars_of(filename);
    let mut out: Vec<char> = Vec::new();
    let mut i: usize = 0;
    while i < v.len()
        invariant
            i <= v.len(),
            out@.len() == i,
            forall|k: int| 0 <= k < i ==> out@[k] == sanitized(v@)[k],
        decreases v.len() - i,
    {
        let c = v[i];
        let reserved = c == '/' || c == '\\' || c == ':' || c == '*' || c == '?' || c == '"' || c
            == '<' || c == '>' || c == '|';
        out.push(if reserved { '_' } else { c });
        i += 1;
    }
    assert(out@ =~= sanitized(v@));
    string_of(&out)
}

/// A numbered file name: stem, underscore and number, and the extension behind a point
/// where there is one.
pub open spec fn numbered_name(stem: Seq<char>, extension: Seq<char>, number: nat) -> Seq<char> {
    if extension.len() == 0 {
        stem + seq!['_'] + decimal_text(number)
    } else {
        stem + seq!['_'] + decimal_text(number) + seq!['.'] + extension
    }
}

/// Different numbers make different names.
pub proof fn lemma_numbered_names_differ(stem: Seq<char>, extension: Seq<char>, a: nat, b: nat)
    requires
        a != b,
    ensures
        numbered_name(stem, extension, a) != numbered_name(stem, extension, b),
{
    let x = numbered_name(stem, extension, a);
    let y = numbered_name(stem, extension, b);
    let da = decimal_text(a);
    let db = decimal_text(b);
    lemma_decimal_text_value(a);
    lemma_decimal_text_value(b);
    if x == y {
        let from: int = stem.len() as int + 1;
        assert(x.len() == y.len());
        assert(da.len() == db.len());
        assert(x.subrange(from, from + da.len()) =~= da);
        assert(y.subrange(from, from + db.len()) =~= db);
        assert(da == db);
    }
}

/// As many different names as are all found in a list, the list is at least that long.
pub proof fn lemma_names_fill_list(
    stem: Seq<char>,
    extension: Seq<char>,
    count: nat,
    taken: Seq<Seq<char>>,
)
    requires
        forall|k: nat| 1 <= k <= count ==> taken.contains(#[trigger] numbered_name(stem, extension, k)),
    ensures
        count <= taken.len(),
    decreases count,
{
    if count > 0 {
        let last = numbered_name(stem, extension, count);
        let i = choose|i: int| 0 <= i < taken.len() && taken[i] == last;
        let rest = taken.remove(i);
        assert forall|k: nat| 1 <= k <= count - 1 implies rest.contains(
            #[trigger] numbered_name(stem, extension, k),
        ) by {
            let name = numbered_name(stem, extension, k);
            lemma_numbered_names_differ(stem, extension, k, count);
            let j = choose|j: int| 0 <= j < taken.len() && taken[j] == name;
            if j < i {
                assert(rest[j] == name);
            } else {
                assert(rest[j - 1] == name);
            }
        }
        lemma_names_fill_list(stem, extension, (count - 1) as nat, rest);
    }
}

/// The first number from `from` on whose name is not in the list, looking at no more than
/// `tries` names: where all of those are taken, the number after them.
pub open spec fn free_number(
    stem: Seq<char>,
    extension: Seq<char>,
    taken: Seq<Seq<char>>,
    from: nat,
    tries: nat,
) -> nat
    decreases tries,
{
    if tries == 0 || !taken.contains(numbered_name(stem, extension, from)) {
        from
    } else {
        free_number(stem, extension, taken, from + 1, (tries - 1) as nat)
    }
}

/// The name for a new file beside the files whose names are taken: the wanted name where
/// it is free, else the numbered name with the least number from 1 that is free.
pub open spec fn unique_name(
    name: Seq<char>,
    stem: Seq<char>,
    extension: Seq<char>,
    taken: Seq<Seq<char>>,
) -> Seq<char> {
    if !taken.contains(name) {
        name
    } else {
        numbered_name(stem, extension, free_number(stem, extension, taken, 1, taken.len()))
    }
}

/// The numbered file name for `number`.
pub fn numbered_filename(stem: &str, extension: &str, number: u64) -> (name: String)
    ensures
        name@ == numbered_name(stem@, extension@, number as nat),
{
    let mut t = chars_of(stem);
    t.push('_');
    push_decimal(&mut t, number);
    let mut ext = chars_of(extension);
    if ext.len() > 0 {
        t.push('.');
        t.append(&mut ext);
    }
    assert(t@ =~= numbered_name(stem@, extension@, number as nat));
    string_of(&t)
}

/// Picks the name for an output file so that it collides with none of the names that are
/// taken. `name` is the wanted file name, `stem` and `extension` are its two parts. The
/// wanted name is kept where it is free; else a number is put behind the stem, the least
/// from 1 on that gives a free name.
pub fn generate_unique_filename(name: &str, stem: &str, extension: &str, taken: &[String]) -> (r:
    String)
    requires
        taken.len() < usize::MAX,
    ensures
        r@ == unique_name(name@, stem@, extension@, taken.deep_view()),
        !taken.deep_view().contains(r@),
{
    if !list_has(taken, name) {
        return String::from_str(name);
    }
    let ghost list = taken.deep_view();
    let mut number: u64 = 1;
    let mut tries: usize = taken.len();
    let mut candidate = numbered_filename(stem, extension, number);
    while tries > 0 && list_has(taken, candidate.as_str())
        invariant
            list == taken.deep_view(),
            taken.len() < usize::MAX,
            number + tries == taken.len() + 1,
            candidate@ == numbered_name(stem@, extension@, number as nat),
            free_number(stem@, extension@, list, 1, list.len()) == free_number(
                stem@,
                extension@,
                list,
                number as nat,
                tries as nat,
            ),
            forall|k: nat| 1 <= k < number ==> list.contains(
                #[trigger] numbered_name(stem@, extension@, k),
            ),
        decreases tries,
    {
        number = number + 1;
        tries = tries - 1;
        candidate = numbered_filename(stem, extension, number);
    }
    proof {
        if list.contains(candidate@) {
            // every number up to one more than the list is long would be taken
            lemma_names_fill_list(stem@, extension@, number as nat, list);
        }
    }
    candidate
}

/// The text in lower case, by the rules of Unicode. Fixed by the standard library.
pub uninterp spec fn lowercase_of(s: Seq<char>) -> Seq<char>;

/// Trusted: `str::to_lowercase` of the standard library, which gives the lower-case
/// equivalent of the text; the result is named [`lowercase_of`].
#[verifier::external_body]
fn lowercase(s: &str) -> (r: String)
    ensures
        r@ == lowercase_of(s@),
{
    s.to_lowercase()
}

/// The extensions of the files that count as video.
pub open spec fn video_extensions() -> Seq<Seq<char>> {
    seq![
        "mp4"@,
        "mkv"@,
        "avi"@,
        "mov"@,
        "wmv"@,
        "flv"@,
        "webm"@,
        "m4v"@,
        "mpg"@,
        "mpeg"@,
    ]
}

/// Whether an extension, in lower case, is a video file's.
pub fn is_known_extension(lower: &str) -> (r: bool)
    ensures
        r == video_extensions().contains(lower@),
{
    let r = same_text(lower, "mp4") || same_text(lower, "mkv") || same_text(lower, "avi")
        || same_text(lower, "mov") || same_text(lower, "wmv") || same_text(lower, "flv")
        || same_text(lower, "webm") || same_text(lower, "m4v") || same_text(lower, "mpg")
        || same_text(lower, "mpeg");
    proof {
        let list = video_extensions();
        if r {
            assert(list[0] == "mp4"@ && list[1] == "mkv"@ && list[2] == "avi"@ && list[3]
                == "mov"@ && list[4] == "wmv"@ && list[5] == "flv"@ && list[6] == "webm"@
                && list[7] == "m4v"@ && list[8] == "mpg"@ && list[9] == "mpeg"@);
        }
    }
    r
}

/// Whether a file with this extension is scanned as a video, whatever its case.
pub fn is_video_extension(extension: &str) -> (r: bool)
    ensures
        r == video_extensions().contains(lowercase_of(extension@)),
{
    let lower = lowercase(extension);
    is_known_extension(lower.as_str())
}

} // verus!
