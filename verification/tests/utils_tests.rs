use video_queue::utils::{
    format_duration, format_file_size, generate_unique_filename, get_resolution_presets,
    is_known_extension, is_video_extension, numbered_filename, parse_resolution,
    rounded_quotient, sanitize_filename, to_nearest_double,
};

#[test]
fn test_format_file_size() {
    assert_eq!(format_file_size(0), "0 B");
    assert_eq!(format_file_size(1024), "1.00 KB");
    assert_eq!(format_file_size(1048576), "1.00 MB");
    assert_eq!(format_file_size(1073741824), "1.00 GB");
}

#[test]
fn test_format_duration() {
    assert_eq!(format_duration(0), "00:00");
    assert_eq!(format_duration(59), "00:59");
    assert_eq!(format_duration(60), "01:00");
    assert_eq!(format_duration(3661), "01:01:01");
}

#[test]
fn test_parse_resolution() {
    assert_eq!(parse_resolution("1920x1080"), Some((1920, 1080)));
    assert_eq!(parse_resolution("1280x720"), Some((1280, 720)));
    assert_eq!(parse_resolution("invalid"), None);
}

#[test]
fn test_sanitize_filename() {
    assert_eq!(sanitize_filename("test:file*.mp4"), "test_file_.mp4");
    assert_eq!(sanitize_filename("normal.mp4"), "normal.mp4");
}

/// The size in words as floating-point arithmetic writes it.
fn float_file_size(bytes: u64) -> String {
    let units = ["B", "KB", "MB", "GB", "TB"];
    if bytes == 0 {
        return "0 B".to_string();
    }
    let mut size = bytes as f64;
    let mut unit_index = 0;
    while size >= 1024.0 && unit_index < units.len() - 1 {
        size /= 1024.0;
        unit_index += 1;
    }
    format!("{:.2} {}", size, units[unit_index])
}

#[test]
fn file_size_small_values_and_unit_borders() {
    assert_eq!(format_file_size(1), "1.00 B");
    assert_eq!(format_file_size(1023), "1023.00 B");
    assert_eq!(format_file_size(1536), "1.50 KB");
    assert_eq!(format_file_size(1048575), "1024.00 KB");
    assert_eq!(format_file_size(1099511627776), "1.00 TB");
    assert_eq!(format_file_size(u64::MAX), "16777216.00 TB");
}

#[test]
fn file_size_half_way_cases_go_to_the_even_digit() {
    // 1152 / 1024 = 1.125 and 1408 / 1024 = 1.375, both exactly
    assert_eq!(format_file_size(1152), "1.12 KB");
    assert_eq!(format_file_size(1408), "1.38 KB");
    assert_eq!(format_file_size(1152), float_file_size(1152));
    assert_eq!(format_file_size(1408), float_file_size(1408));
}

#[test]
fn file_size_agrees_with_floating_point_formatting() {
    let mut samples: Vec<u64> = Vec::new();
    for n in 0..5000u64 {
        samples.push(n);
        samples.push(n * 128);
        samples.push(n * 1_000_003);
    }
    for shift in 0..64u32 {
        let p = 1u64 << shift;
        for d in 0..40u64 {
            samples.push(p.wrapping_sub(d));
            samples.push(p.wrapping_add(d));
            samples.push(p.wrapping_add(p / 3).wrapping_add(d));
        }
    }
    let mut x: u64 = 0x9E37_79B9_7F4A_7C15;
    for _ in 0..20000 {
        x ^= x << 13;
        x ^= x >> 7;
        x ^= x << 17;
        samples.push(x);
        samples.push(x >> 11);
        samples.push(x >> 30);
    }
    for bytes in samples {
        assert_eq!(format_file_size(bytes), float_file_size(bytes), "for {} bytes", bytes);
    }
}

#[test]
fn nearest_double_is_what_the_cast_gives() {
    let mut x: u64 = 0x1234_5678_9ABC_DEF1;
    for _ in 0..20000 {
        x ^= x << 13;
        x ^= x >> 7;
        x ^= x << 17;
        assert_eq!(to_nearest_double(x), (x as f64) as u128);
    }
    assert_eq!(to_nearest_double(0), 0);
    assert_eq!(to_nearest_double((1 << 53) + 1), 1 << 53);
    assert_eq!(to_nearest_double((1 << 53) + 3), (1 << 53) + 4);
    assert_eq!(to_nearest_double(u64::MAX), 1u128 << 64);
}

#[test]
fn rounded_quotient_rounds_half_to_even() {
    assert_eq!(rounded_quotient(7, 2), 4);
    assert_eq!(rounded_quotient(5, 2), 2);
    assert_eq!(rounded_quotient(9, 4), 2);
    assert_eq!(rounded_quotient(11, 4), 3);
    assert_eq!(rounded_quotient(0, 3), 0);
}

#[test]
fn duration_pads_to_two_digits_and_lets_hours_grow() {
    assert_eq!(format_duration(3600), "01:00:00");
    assert_eq!(format_duration(3599), "59:59");
    assert_eq!(format_duration(360000), "100:00:00");
    assert_eq!(format_duration(u64::MAX), "5124095576030431:00:15");
}

#[test]
fn resolution_needs_two_numerals_around_one_x() {
    assert_eq!(parse_resolution(""), None);
    assert_eq!(parse_resolution("x"), None);
    assert_eq!(parse_resolution("1920x"), None);
    assert_eq!(parse_resolution("x1080"), None);
    assert_eq!(parse_resolution("1920x1080x3"), None);
    assert_eq!(parse_resolution("1920X1080"), None);
    assert_eq!(parse_resolution(" 1920x1080"), None);
    assert_eq!(parse_resolution("-1x5"), None);
    assert_eq!(parse_resolution("+5x+7"), Some((5, 7)));
    assert_eq!(parse_resolution("007x08"), Some((7, 8)));
    assert_eq!(parse_resolution("4294967295x0"), Some((4294967295, 0)));
    assert_eq!(parse_resolution("4294967296x1"), None);
}

#[test]
fn resolution_agrees_with_the_standard_parser() {
    let parts = ["", "0", "1", "+1", "-1", "12", "4294967295", "4294967296", "1.5", " 3", "a", "x"];
    for a in parts {
        for b in parts {
            let text = format!("{}x{}", a, b);
            let pieces: Vec<&str> = text.split('x').collect();
            let expected = if pieces.len() != 2 {
                None
            } else {
                match (pieces[0].parse::<u32>(), pieces[1].parse::<u32>()) {
                    (Ok(w), Ok(h)) => Some((w, h)),
                    _ => None,
                }
            };
            assert_eq!(parse_resolution(&text), expected, "for {:?}", text);
        }
    }
}

#[test]
fn presets_are_the_five_common_resolutions() {
    let presets = get_resolution_presets();
    assert_eq!(
        presets,
        vec![
            ("4K (3840x2160)", (3840, 2160)),
            ("1080p (1920x1080)", (1920, 1080)),
            ("720p (1280x720)", (1280, 720)),
            ("480p (854x480)", (854, 480)),
            ("360p (640x360)", (640, 360)),
        ]
    );
}

#[test]
fn sanitize_replaces_each_reserved_character() {
    assert_eq!(sanitize_filename("/\\:*?\"<>|"), "_________");
    assert_eq!(sanitize_filename(""), "");
    assert_eq!(sanitize_filename("a b.c-d_e"), "a b.c-d_e");
    assert_eq!(sanitize_filename("é/ü"), "é_ü");
}

#[test]
fn numbered_names_keep_the_extension() {
    assert_eq!(numbered_filename("movie", "mp4", 1), "movie_1.mp4");
    assert_eq!(numbered_filename("movie", "mp4", 12), "movie_12.mp4");
    assert_eq!(numbered_filename("movie", "", 3), "movie_3");
    assert_eq!(numbered_filename("", "mkv", 0), "_0.mkv");
    assert_eq!(numbered_filename("a.b", "c", u64::MAX), "a.b_18446744073709551615.c");
}

fn names(items: &[&str]) -> Vec<String> {
    items.iter().map(|s| s.to_string()).collect()
}

#[test]
fn free_name_is_kept() {
    assert_eq!(generate_unique_filename("movie.mp4", "movie", "mp4", &[]), "movie.mp4");
    let taken = names(&["other.mp4", "movie.mkv", "movie_1.mp4", "Movie.mp4"]);
    assert_eq!(generate_unique_filename("movie.mp4", "movie", "mp4", &taken), "movie.mp4");
}

#[test]
fn taken_name_gets_the_least_free_number() {
    let taken = names(&["movie.mp4"]);
    assert_eq!(generate_unique_filename("movie.mp4", "movie", "mp4", &taken), "movie_1.mp4");
    let taken = names(&["movie_2.mp4", "movie.mp4", "movie_1.mp4", "movie_4.mp4"]);
    assert_eq!(generate_unique_filename("movie.mp4", "movie", "mp4", &taken), "movie_3.mp4");
    let taken = names(&["movie", "movie_1", "movie_2", "movie_3"]);
    assert_eq!(generate_unique_filename("movie", "movie", "", &taken), "movie_4");
    let taken = names(&["movie.mp4", "movie.mp4", "movie_1.mp4", "movie_1.mp4"]);
    assert_eq!(generate_unique_filename("movie.mp4", "movie", "mp4", &taken), "movie_2.mp4");
    let taken = names(&["movie.mp4", "movie_01.mp4", "movie_1.mkv", "movie_1"]);
    assert_eq!(generate_unique_filename("movie.mp4", "movie", "mp4", &taken), "movie_1.mp4");
}

#[test]
fn unique_name_is_never_a_taken_one() {
    let mut taken = names(&["clip.webm"]);
    for round in 0..50 {
        let name = generate_unique_filename("clip.webm", "clip", "webm", &taken);
        assert!(!taken.contains(&name));
        assert_eq!(name, format!("clip_{}.webm", round + 1));
        taken.insert(round % (taken.len() + 1), name);
    }
}

#[test]
fn video_extensions_are_matched_in_any_case() {
    for ext in ["mp4", "mkv", "avi", "mov", "wmv", "flv", "webm", "m4v", "mpg", "mpeg"] {
        assert!(is_known_extension(ext));
        assert!(is_video_extension(ext));
        assert!(is_video_extension(&ext.to_uppercase()));
    }
    assert!(is_video_extension("Mp4"));
    assert!(!is_video_extension("txt"));
    assert!(!is_video_extension(""));
    assert!(!is_video_extension("mp"));
    assert!(!is_known_extension("MP4"));
    // the Kelvin sign is an upper-case letter whose lower case is the letter k
    assert!(is_video_extension("m\u{212A}v"));
}
