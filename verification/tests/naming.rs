//! File names, timestamps and sizes.

use std::path::PathBuf;

use video_tool::util::{
    audio_ext_by_quality, convert_audio_ext, escape_outtmpl, format_bytes, format_clock,
    format_elapsed, format_eta, free_anon_stem, literal_path, numbered_path, outtmpl_for,
    parse_hms_to_seconds, parse_speed_value, parse_time_input, parse_version, sanitize_filename,
    strip_media_ext, taken_stems, time_total, unique_path, ytdlp_older_than, FreeName, ANON_MAX,
};

fn text(p: &PathBuf) -> String {
    p.to_string_lossy().to_string()
}

fn template(path: &str) -> String {
    outtmpl_for(&PathBuf::from(path))
}

fn copy(path: &str, n: u64) -> String {
    text(&numbered_path(&PathBuf::from(path), n))
}

fn search(path: &str, asked: &str, exists: bool, tried: u64) -> FreeName {
    unique_path(&PathBuf::from(path), PathBuf::from(asked), exists, tried)
}

const SECOND: i64 = 1_000_000_000;

/// A typed timestamp in seconds, with the numbers of its parts read as floats.
fn typed_seconds(text: &str) -> Option<f64> {
    let parts = parse_time_input(text)?;
    let values: Vec<Option<i64>> = parts
        .iter()
        .map(|p| match p.parse::<f64>() {
            Ok(v) if v.is_finite() && v >= 0.0 => Some((v * 1e9).round() as i64),
            _ => None,
        })
        .collect();
    time_total(&values).map(|ns| ns as f64 / 1e9)
}

#[test]
fn sanitize_strips_path_separators() {
    // The result is joined onto a directory, so it must not be able to
    // walk out of it.
    assert_eq!(sanitize_filename("../../etc/passwd"), ".._.._etc_passwd");
    assert_eq!(sanitize_filename(r"a\b/c"), "a_b_c");
}

#[test]
fn sanitize_drops_a_bare_traversal() {
    assert_eq!(sanitize_filename(".."), "");
    assert_eq!(sanitize_filename("."), "");
}

#[test]
fn sanitize_replaces_control_characters() {
    assert_eq!(sanitize_filename("a\u{0}b\nc"), "a_b_c");
}

#[test]
fn sanitize_never_ends_in_a_dot_or_space_after_truncation() {
    let name = format!("{}. more", "x".repeat(199));
    let out = sanitize_filename(&name);
    assert!(out.len() <= 200);
    assert!(!out.ends_with('.') && !out.ends_with(' '), "got {out:?}");
}

#[test]
fn sanitize_escapes_windows_device_names() {
    assert_eq!(sanitize_filename("CON"), "_CON");
    assert_eq!(sanitize_filename("nul.mp4"), "_nul.mp4");
    // Only exact device stems are affected.
    assert_eq!(sanitize_filename("console.mp4"), "console.mp4");
}

#[test]
fn sanitize_leaves_no_way_up_behind_odd_spaces() {
    assert_eq!(sanitize_filename("..\u{a0}."), "");
    assert_eq!(sanitize_filename("  a . "), "a");
}

#[test]
fn outtmpl_escapes_percent_in_the_directory() {
    // '%' starts a field in yt-dlp's template language.
    assert_eq!(escape_outtmpl("C:/50% off/x"), "C:/50%% off/x");
}

#[test]
fn a_template_stands_for_the_path_it_was_made_of() {
    let tmpl = template("out/50% off.mp4");
    assert_eq!(tmpl, "out/50%% off.%(ext)s");
    assert_eq!(literal_path("out/50%% off"), "out/50% off");
    assert_eq!(literal_path(&escape_outtmpl("%%a%")), "%%a%");
}

#[test]
fn anon_stem_stays_inside_the_range() {
    for draw in [0, 1, ANON_MAX - 1, ANON_MAX, u64::MAX] {
        let stem = free_anon_stem(&vec![], &vec![draw], 0);
        let n: u64 = stem.strip_prefix("video-").unwrap().parse().unwrap();
        assert!((1..=ANON_MAX).contains(&n), "got {stem}");
    }
}

#[test]
fn anon_stem_skips_names_already_in_the_folder() {
    // First two draws land on taken numbers, the third does not.
    let taken = vec!["video-6".to_string(), "video-8".to_string()];
    let stem = free_anon_stem(&taken, &vec![5, 7, 41], 0);
    assert_eq!(stem, "video-42");
}

#[test]
fn anon_stem_falls_back_to_a_scan_when_every_draw_collides() {
    let taken: Vec<String> = (1..=3).map(|n| format!("video-{n}")).collect();
    // Every draw maps onto 1..=3, so the scan has to find the first gap.
    let stem = free_anon_stem(&taken, &vec![0, 1, 2], 0);
    assert_eq!(stem, "video-4");
}

#[test]
fn anon_stem_takes_the_clock_when_the_range_is_full() {
    let taken: Vec<String> = (1..=ANON_MAX).map(|n| format!("video-{n}")).collect();
    assert_eq!(free_anon_stem(&taken, &vec![], 1_700_000_000_000), "video-1700000000000");
}

#[test]
fn the_stems_of_a_folder_are_compared_in_lowercase() {
    let names = vec!["VIDEO-7.MP4".to_string(), "notes".to_string()];
    assert_eq!(taken_stems(&names), vec!["video-7".to_string(), "notes".to_string()]);
}

#[test]
fn typed_timestamps_are_read_in_every_shape_the_field_allows() {
    assert_eq!(typed_seconds("90"), Some(90.0));
    assert_eq!(typed_seconds("1:30"), Some(90.0));
    assert_eq!(typed_seconds("1:02:03"), Some(3723.0));
    assert_eq!(typed_seconds(" 0:00:01.5 "), Some(1.5));
    assert_eq!(typed_seconds("0:00:01,5"), Some(1.5));
    // Nothing usable - the caller must not read this as "second zero".
    assert_eq!(typed_seconds(""), None);
    assert_eq!(typed_seconds("   "), None);
    assert_eq!(typed_seconds("abc"), None);
    assert_eq!(typed_seconds("1:2:3:4"), None);
    assert_eq!(typed_seconds("-5"), None);
}

#[test]
fn clock_and_byte_formatting_stay_readable() {
    assert_eq!(format_clock(0), "0:00:00");
    assert_eq!(format_clock(3_723_400_000_000), "1:02:03");
    assert_eq!(format_clock(-10 * SECOND), "0:00:00");
    assert_eq!(format_bytes(512), "512 B");
    assert_eq!(format_bytes(1024), "1.0 KB");
    assert_eq!(format_bytes(5 * 1024 * 1024), "5.0 MB");
}

#[test]
fn sizes_round_as_floating_point_does() {
    for n in [
        0u64,
        1023,
        1075,
        1076,
        1127,
        1280,
        1536,
        1_048_575,
        1_048_576,
        1_100_000,
        1_073_741_823,
        1_073_741_824,
        5_000_000_000,
        (1 << 53) + 1,
        u64::MAX,
    ] {
        let want = if n < 1024 {
            format!("{n} B")
        } else if n < 1024 * 1024 {
            format!("{:.1} KB", n as f64 / 1024.0)
        } else if n < 1024 * 1024 * 1024 {
            format!("{:.1} MB", n as f64 / (1024.0 * 1024.0))
        } else {
            format!("{:.1} GB", n as f64 / (1024.0 * 1024.0 * 1024.0))
        };
        assert_eq!(format_bytes(n), want, "{n}");
    }
}

#[test]
fn times_left_and_gone_have_two_shapes() {
    assert_eq!(format_eta(None), "--:--");
    assert_eq!(format_eta(Some(65 * SECOND)), "01:05");
    assert_eq!(format_eta(Some(3661 * SECOND)), "01:01:01");
    assert_eq!(format_elapsed(3661 * SECOND + 259_999_999), "1:01:01.25");
    assert_eq!(format_elapsed(-1), "0:00:00.00");
}

#[test]
fn ytdlp_version_comparison() {
    assert!(ytdlp_older_than("2026.06.01", "2026.07.04"));
    assert!(!ytdlp_older_than("2026.07.04", "2026.07.04"));
    assert!(!ytdlp_older_than("2026.08.01", "2026.07.04"));
    // Unparseable versions must not trigger a false warning.
    assert!(!ytdlp_older_than("unknown", "2026.07.04"));
}

#[test]
fn a_version_is_its_runs_of_digits() {
    assert_eq!(parse_version("v1.20.3-rc4"), vec![1, 20, 3, 4]);
    assert_eq!(parse_version("none"), vec![0]);
}

#[test]
fn a_free_name_is_searched_for_copy_by_copy() {
    match search("out/a.mp4", "out/a.mp4", false, 0) {
        FreeName::Use(p) => assert_eq!(text(&p), "out/a.mp4"),
        other => panic!("{other:?}"),
    }
    match search("out/a.mp4", "out/a.mp4", true, 0) {
        FreeName::Ask(p) => assert_eq!(text(&p), "out/a (1).mp4"),
        other => panic!("{other:?}"),
    }
    match search("out/a.mp4", "out/a (1).mp4", false, 1) {
        FreeName::Use(p) => assert_eq!(text(&p), "out/a (1).mp4"),
        other => panic!("{other:?}"),
    }
    // However many copies there are, the next one is asked for.
    match search("out/a.mp4", "out/a (999).mp4", true, 999) {
        FreeName::Ask(p) => assert_eq!(text(&p), "out/a (1000).mp4"),
        other => panic!("{other:?}"),
    }
    assert_eq!(copy("a", 3), "a (3)");
}

#[test]
fn only_media_extensions_are_dropped_from_a_name() {
    assert_eq!(strip_media_ext("clip.MP4"), "clip");
    assert_eq!(strip_media_ext("v1.2"), "v1.2");
    assert_eq!(strip_media_ext("clip"), "clip");
}

#[test]
fn clock_texts_of_ffmpeg_are_read_to_the_nanosecond() {
    assert_eq!(parse_hms_to_seconds("00:01:02.500000"), Some(62_500_000_000));
    assert_eq!(parse_hms_to_seconds("01:00:00"), Some(3600 * SECOND));
    assert_eq!(parse_hms_to_seconds("N/A"), None);
}

#[test]
fn a_speed_is_read_without_its_sign() {
    assert_eq!(parse_speed_value("1.5x"), Some("1.5".to_string()));
    assert_eq!(parse_speed_value("2X"), Some("2".to_string()));
    assert_eq!(parse_speed_value(""), None);
    assert!(parse_speed_value("N/A").unwrap().parse::<f64>().is_err());
}

#[test]
fn audio_presets_have_their_own_extensions() {
    assert_eq!(audio_ext_by_quality("audio"), Some("mp3"));
    assert_eq!(audio_ext_by_quality("1080"), None);
    assert_eq!(convert_audio_ext("audio_wav"), Some("wav"));
    assert_eq!(convert_audio_ext("h264"), None);
}

#[test]
fn a_name_with_a_colon_is_still_one_name() {
    assert_eq!(strip_media_ext("Talk: part 2.MKV"), "Talk: part 2");
    assert_eq!(strip_media_ext("Talk: v1.2"), "Talk: v1.2");
    assert_eq!(strip_media_ext("a.mp4.mkv"), "a.mp4");
    assert_eq!(strip_media_ext(".mp4"), ".mp4");
}

#[test]
fn a_copy_stays_beside_its_path() {
    assert_eq!(copy("C:/v/a.mp4", 2), "C:/v/a (2).mp4");
    assert_eq!(copy("/v/Talk: one.mp4", 1), "/v/Talk: one (1).mp4");
    assert_eq!(copy("/a.mp4", 1), "/a (1).mp4");
    assert_eq!(copy("v//a.tar.gz", 7), "v/a.tar (7).gz");
    assert_eq!(copy("v/./.profile", 7), "v/.profile (7)");
}

#[test]
fn a_template_leaves_the_extension_open() {
    assert_eq!(template("C:/50%/a.webm"), "C:/50%%/a.%(ext)s");
    assert_eq!(template("C:/50%/a.mp4"), template("C:/50%/a.webm"));
}

#[test]
fn every_plain_file_rules_out_its_stem() {
    let names = vec![
        "odd\\name.mp4".to_string(),
        "VIDEO-7.webm".to_string(),
        "Talk: one.mp4".to_string(),
    ];
    let taken = taken_stems(&names);
    assert!(taken.contains(&"video-7".to_string()));
    assert!(taken.contains(&"talk: one".to_string()));
    assert_eq!(free_anon_stem(&taken, &vec![6, 7], 0), "video-8");
}

#[test]
fn to_sanitize_twice_changes_nothing() {
    for name in ["CON", "con.mp4", "  a<b>c. ", "..", "LPT9.tar.gz", "Nul", "été?", "_aux"] {
        let once = sanitize_filename(name);
        assert_eq!(sanitize_filename(&once), once);
        assert!(!once.starts_with(' '));
    }
    assert_eq!(sanitize_filename("LPT9.tar.gz"), "_LPT9.tar.gz");
}

#[test]
fn a_path_that_leads_to_no_file_gets_a_copy_of_its_own() {
    assert_eq!(copy("", 1), "file (1)");
    assert_eq!(copy("/", 1), "/file (1)");
    assert_eq!(copy("v/..", 1), "v/../file (1)");
    assert_eq!(copy(".", 1), "./file (1)");
    // What stands for nothing at the end is passed over.
    assert_eq!(copy("v/a.mp4/", 1), "v/a (1).mp4");
    assert_eq!(copy("v/a.mp4/./", 1), "v/a (1).mp4");
    assert_eq!(copy("./a.mp4", 1), "./a (1).mp4");
    assert_eq!(template("v/a.mp4/"), "v/a.%(ext)s");
    assert_eq!(template("v/.."), "v/...%(ext)s");
    assert_eq!(template("..b"), "..%(ext)s");
    assert_eq!(strip_media_ext("."), ".");
    assert_eq!(strip_media_ext(".."), "..");
    assert_eq!(strip_media_ext(""), "");
}
