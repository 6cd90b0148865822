use video_queue::text::{
    chars_of, contains_text, decimal_string, find_char, parse_fixed, parse_unsigned, same_text,
    slice_of, split_once, string_of,
};

#[test]
fn characters_round_trip_through_vectors() {
    for text in ["", "a", "héllo wörld", "日本語", "a\nb\tc"] {
        let chars = chars_of(text);
        assert_eq!(chars, text.chars().collect::<Vec<char>>());
        assert_eq!(string_of(&chars), text);
    }
}

#[test]
fn same_text_is_equality() {
    assert!(same_text("", ""));
    assert!(same_text("abc", "abc"));
    assert!(!same_text("abc", "abd"));
    assert!(!same_text("abc", "ab"));
    assert!(!same_text("ab", "abc"));
}

#[test]
fn contains_text_agrees_with_the_standard_search() {
    let hays = ["", "a", "abc", "aaab", "h264_nvenc hevc_qsv", "xxnvencxx", "nven"];
    let needles = ["", "a", "ab", "bc", "aab", "nvenc", "qsv", "abcd"];
    for hay in hays {
        for needle in needles {
            assert_eq!(contains_text(hay, needle), hay.contains(needle), "{:?} in {:?}", needle, hay);
        }
    }
}

#[test]
fn decimal_string_agrees_with_the_standard_formatter() {
    for n in [0u64, 1, 9, 10, 11, 99, 100, 101, 12345, 1_000_000, u64::MAX - 1, u64::MAX] {
        assert_eq!(decimal_string(n), n.to_string());
    }
}

#[test]
fn parse_unsigned_agrees_with_the_standard_parser() {
    let texts = [
        "", "0", "7", "+7", "-7", "++7", "+", "007", "12a", "a12", " 12", "12 ", "1.5",
        "18446744073709551615", "18446744073709551616", "99999999999999999999999", "٣",
        "4294967295", "4294967296", "000000000000000000000000000001",
    ];
    for text in texts {
        assert_eq!(parse_unsigned(text, u64::MAX), text.parse::<u64>().ok(), "u64 {:?}", text);
        assert_eq!(
            parse_unsigned(text, u32::MAX as u64),
            text.parse::<u32>().ok().map(|n| n as u64),
            "u32 {:?}",
            text
        );
    }
}

#[test]
fn parse_unsigned_reads_back_what_decimal_string_writes() {
    for n in [0u64, 5, 10, 999, 1 << 40, u64::MAX] {
        assert_eq!(parse_unsigned(&decimal_string(n), u64::MAX), Some(n));
    }
    assert_eq!(parse_unsigned("5", 4), None);
    assert_eq!(parse_unsigned("4", 4), Some(4));
    assert_eq!(parse_unsigned("9", 5), None);
}

#[test]
fn parse_fixed_scales_and_truncates() {
    assert_eq!(parse_fixed("29.97", 3), Some(29970));
    assert_eq!(parse_fixed("29.9799", 3), Some(29979));
    assert_eq!(parse_fixed("30", 3), Some(30000));
    assert_eq!(parse_fixed("30.", 3), Some(30000));
    assert_eq!(parse_fixed(".5", 3), Some(500));
    assert_eq!(parse_fixed("0.0", 3), Some(0));
    assert_eq!(parse_fixed("12.345678", 6), Some(12345678));
    assert_eq!(parse_fixed("12.3456789", 6), Some(12345678));
    assert_eq!(parse_fixed("7", 0), Some(7));
    assert_eq!(parse_fixed("7.9", 0), Some(7));
}

#[test]
fn parse_fixed_refuses_what_is_no_plain_decimal() {
    for text in ["", ".", "..", "1.2.3", "1..2", "-1", "+1", "1e3", "abc", "1,5", " 1", "1 ", "N/A", "inf", "١"] {
        assert_eq!(parse_fixed(text, 3), None, "for {:?}", text);
    }
    assert_eq!(parse_fixed("18446744073709551.615", 3), Some(u64::MAX));
    assert_eq!(parse_fixed("18446744073709551.616", 3), None);
    assert_eq!(parse_fixed("18446744073709551615", 0), Some(u64::MAX));
    assert_eq!(parse_fixed("18446744073709551615", 1), None);
}

#[test]
fn find_char_gives_the_first_position_or_the_length() {
    assert_eq!(find_char(&chars_of("abcabc"), 'b'), 1);
    assert_eq!(find_char(&chars_of("abcabc"), 'a'), 0);
    assert_eq!(find_char(&chars_of("abcabc"), 'x'), 6);
    assert_eq!(find_char(&chars_of(""), 'x'), 0);
}

#[test]
fn split_once_cuts_at_the_first_separator() {
    assert_eq!(split_once("1920x1080", 'x'), Some(("1920".to_string(), "1080".to_string())));
    assert_eq!(split_once("axbxc", 'x'), Some(("a".to_string(), "bxc".to_string())));
    assert_eq!(split_once("x", 'x'), Some(("".to_string(), "".to_string())));
    assert_eq!(split_once("abc", 'x'), None);
    assert_eq!(split_once("", 'x'), None);
    let v = chars_of("hello");
    assert_eq!(slice_of(&v, 1, 3), vec!['e', 'l']);
    assert_eq!(slice_of(&v, 0, 5), v);
    assert_eq!(slice_of(&v, 5, 5), Vec::<char>::new());
}
