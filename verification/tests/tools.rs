//! The external tools, their downloads and their archives.

use std::io::Write;

use std::path::PathBuf;

use video_tool::archive::{extract_named, member_base_name};
use video_tool::binaries::{
    announced_length, expected_digest, part_path, sums_error, verify_ytdlp_checksum, vet_redirect,
    vet_url, Binaries, Capture,
};
use video_tool::cache::{fingerprint, probe_holds};
use video_tool::consts::VERSION;

const DIGEST: &str = "ba7816bf8f01cfea414140de5dae2223b00361a396177a9cb410ff61f20015ad";

fn linux() -> Binaries {
    Binaries::new("linux", "x86_64", Some("/home/me"))
}

fn said(text: &str) -> Option<Capture> {
    Some(Capture { success: true, text: text.to_string() })
}

#[test]
fn the_tools_live_below_the_home_directory() {
    let b = linux();
    assert_eq!(b.system, "Linux");
    assert!(!b.is_windows);
    assert_eq!(b.bin_dir, "/home/me/.video_tool_v3/bin");
    assert_eq!(b.plugins_dir, "/home/me/.video_tool_v3/plugins");
    assert_eq!(b.ytdlp_local, "/home/me/.video_tool_v3/bin/yt-dlp");
    let w = Binaries::new("windows", "X86_64", None);
    assert_eq!(w.system, "Windows");
    assert_eq!(w.machine, "x86_64");
    assert!(w.ffmpeg_local.ends_with("ffmpeg.exe"), "{}", w.ffmpeg_local);
    assert_eq!(Binaries::new("macos", "aarch64", None).system, "Darwin");
}

#[test]
fn a_local_copy_is_preferred() {
    let b = linux();
    assert_eq!(b.ytdlp_path(true), b.ytdlp_local);
    assert_eq!(b.ytdlp_path(false), "yt-dlp");
    assert_eq!(b.ffmpeg_path(false), "ffmpeg");
    assert_eq!(b.ffprobe_path(true), b.ffprobe_local);
}

#[test]
fn the_search_path_is_extended_only_once() {
    let b = linux();
    assert_eq!(b.search_path(""), Some(b.bin_dir.clone()));
    let first = b.search_path("/usr/bin").unwrap();
    assert_eq!(first, "/home/me/.video_tool_v3/bin:/usr/bin");
    assert_eq!(b.search_path(&first), None);
}

#[test]
fn versions_are_read_off_what_the_tools_print() {
    let b = linux();
    assert_eq!(b.check_ytdlp(&said(" 2026.07.04 \n")), (true, "2026.07.04".to_string()));
    assert_eq!(b.check_ytdlp(&said(" ")), (true, "OK".to_string()));
    assert_eq!(b.check_ytdlp(&None), (false, "Not found".to_string()));
    assert_eq!(
        b.check_ffmpeg(&said("ffmpeg version 7.1 Copyright version 8")),
        (true, "7.1".to_string())
    );
    assert_eq!(b.check_ffmpeg(&said("ffmpeg")), (true, "OK".to_string()));
    let c = b.run_capture(true, " \n", "on stderr");
    assert_eq!(c.text, "on stderr");
    assert_eq!(b.run_capture(true, "out", "err").text, "out");
}

#[test]
fn the_first_runtime_that_runs_is_used() {
    let b = linux();
    assert_eq!(b.js_candidates(true).len(), 3);
    assert_eq!(b.js_candidates(false).len(), 2);
    let runs = vec![
        ("deno".to_string(), None),
        ("node".to_string(), said("v22.1.0\nmore")),
    ];
    assert_eq!(b.js_runtime(&runs), ("node".to_string(), "v22.1.0".to_string()));
    assert_eq!(b.check_deno(&runs), (true, "node v22.1.0".to_string()));
    let deno = vec![("deno".to_string(), said("deno 2.0.0"))];
    assert_eq!(b.check_deno(&deno), (true, "deno 2.0.0".to_string()));
    assert_eq!(b.check_deno(&vec![]), (false, "Not found".to_string()));
}

#[test]
fn encoders_and_impersonation_need_their_tool() {
    let b = linux();
    assert_eq!(b.detect_hw_encoder(&said(" V....D H264_NVENC")), "nvidia");
    assert_eq!(b.detect_hw_encoder(&said("h264_qsv h264_amf")), "intel");
    assert_eq!(b.detect_hw_encoder(&said("libx264")), "cpu");
    let runs = vec![("deno".to_string(), said("deno 2.0.0"))];
    let s = b.probe_status(&said("1"), &None, &said("h264_nvenc"), &said("x"), &runs);
    assert!(s.ytdlp_ok && s.impersonate_ok && !s.ffmpeg_ok && s.deno_ok);
    assert_eq!(s.hw_backend, "cpu");
    assert_eq!(s.js_runtime, "deno");
    let t = b.probe_status(&None, &said("ffmpeg version 7"), &said("h264_amf"), &said("x"), &vec![]);
    assert!(!t.impersonate_ok);
    assert_eq!((t.hw_backend.as_str(), t.js_runtime.as_str()), ("amd", ""));
}

#[test]
fn a_channel_switch_reports_what_was_printed() {
    let b = linux();
    assert_eq!(b.update_channel("nightly", true, "a\n", "b\n"), Ok("a\nb".to_string()));
    assert_eq!(b.update_channel("nightly", false, " ", "no"), Err("no".to_string()));
    assert_eq!(
        b.update_channel("nightly", false, "", ""),
        Err("yt-dlp --update-to nightly failed".to_string())
    );
}

#[test]
fn each_system_has_its_own_assets() {
    assert_eq!(linux().ytdlp_url().1, "yt-dlp");
    assert_eq!(Binaries::new("linux", "aarch64", None).ytdlp_url().1, "yt-dlp_linux_aarch64");
    assert_eq!(Binaries::new("macos", "x86_64", None).ytdlp_url().1, "yt-dlp_macos");
    assert_eq!(
        Binaries::new("windows", "x86_64", None).ytdlp_url().0,
        "https://github.com/yt-dlp/yt-dlp/releases/latest/download/yt-dlp.exe"
    );
    assert_eq!(linux().ffmpeg_platform_key(), "linux-64");
    assert_eq!(
        Binaries::new("macos", "arm64", None).deno_url(),
        "https://github.com/denoland/deno/releases/latest/download/deno-aarch64-apple-darwin.zip"
    );
}

#[test]
fn ffmpeg_comes_from_the_builds_of_this_system() {
    let b = linux();
    let text = "{\"bin\":{\"linux-64\":{\"ffprobe\":\"https://p\",\"ffmpeg\":\"https://f\"}}}";
    assert_eq!(
        b.install_ffmpeg(text),
        Ok(vec![
            ("ffmpeg".to_string(), "https://f".to_string()),
            ("ffprobe".to_string(), "https://p".to_string()),
        ])
    );
    let partial = "{\"bin\":{\"linux-64\":{\"ffprobe\":\"https://p\"}}}";
    assert_eq!(b.install_ffmpeg(partial).unwrap().len(), 1);
    assert_eq!(
        b.install_ffmpeg("{}"),
        Err("No ffmpeg binaries available for linux-64.".to_string())
    );
    assert!(b.install_ffmpeg("<").unwrap_err().starts_with("ffbinaries json: "));
}

#[test]
fn only_https_is_downloaded_from() {
    assert!(vet_url("HTTPS://example.com").is_ok());
    assert_eq!(
        vet_url("http://example.com"),
        Err("Refusing non-HTTPS download URL: http://example.com".to_string())
    );
    assert_eq!(
        vet_redirect("http://b"),
        Err("Refusing redirect to a non-HTTPS URL: http://b".to_string())
    );
    assert!(vet_redirect("https://b").is_ok());
    assert_eq!(announced_length(Some("42")), 42);
    assert_eq!(announced_length(Some("many")), 0);
    assert_eq!(announced_length(None), 0);
    assert_eq!(part_path(&PathBuf::from("/a/deno.zip")), PathBuf::from("/a/deno.zip.part"));
    assert_eq!(part_path(&PathBuf::from("/a/yt-dlp")), PathBuf::from("/a/yt-dlp.part"));
}

#[test]
fn a_binary_is_let_in_by_its_checksum_alone() {
    let sums = format!("{}  other\n{}  *yt-dlp\n", "0".repeat(64), DIGEST.to_uppercase());
    let good = b"abc".to_vec();
    assert!(linux().install_ytdlp(&sums, &good).is_ok());
    assert!(verify_ytdlp_checksum(&sums, "yt-dlp", &good).is_ok());
    assert_eq!(
        verify_ytdlp_checksum(&sums, "other", &good),
        Err(
            "yt-dlp checksum mismatch - download discarded (expected 000000000000..., got ba7816bf8f01...)."
                .to_string()
        )
    );
    assert_eq!(
        verify_ytdlp_checksum("", "yt-dlp", &good),
        Err("no valid SHA2-256SUMS entry for 'yt-dlp' - yt-dlp download discarded".to_string())
    );
}

#[test]
fn unusable_lines_of_a_checksum_list_are_passed_over() {
    let sums = format!("short yt-dlp\n{DIGEST} yt-dlp extra\n{DIGEST} yt-dlp");
    assert_eq!(expected_digest(&sums, "yt-dlp"), Some(DIGEST.to_string()));
    assert_eq!(expected_digest("short yt-dlp", "yt-dlp"), None);
    assert!(sums_error(false, "x").starts_with("could not fetch SHA2-256SUMS (x)"));
    assert!(sums_error(true, "x").starts_with("could not read SHA2-256SUMS (x)"));
}

fn archive(members: &[(&str, &[u8])]) -> Vec<u8> {
    let mut zip = zip::ZipWriter::new(std::io::Cursor::new(Vec::new()));
    let options = zip::write::SimpleFileOptions::default()
        .compression_method(zip::CompressionMethod::Deflated);
    for (name, data) in members {
        if name.ends_with('/') {
            zip.add_directory(*name, options).unwrap();
        } else {
            zip.start_file(*name, options).unwrap();
            zip.write_all(data).unwrap();
        }
    }
    zip.finish().unwrap().into_inner()
}

#[test]
fn the_program_is_found_in_its_archive_by_its_base_name() {
    let long = vec![7u8; 5000];
    let bytes = archive(&[
        ("deno/", b""),
        ("docs/deno.txt", b"text"),
        ("bin/DENO.EXE", long.as_slice()),
        ("deno", b"second"),
    ]);
    assert_eq!(extract_named(bytes.clone(), "deno"), Ok(long));
    assert_eq!(linux().install_deno(archive(&[("deno", b"x")])), Ok(b"x".to_vec()));
    assert_eq!(
        extract_named(bytes, "ffmpeg"),
        Err("ffmpeg not found in the ZIP".to_string())
    );
    assert!(extract_named(b"no zip".to_vec(), "deno").is_err());
    assert_eq!(member_base_name("a\\b/c/"), "c");
}

#[test]
fn a_changed_binary_makes_an_old_probe_void() {
    let files = vec![Some((10, 20)), None];
    let seen = fingerprint(&files).unwrap();
    assert_eq!(seen, "10:20;-;");
    assert!(probe_holds(VERSION, &seen, &files));
    assert!(!probe_holds("0.0.1", &seen, &files));
    assert!(!probe_holds(VERSION, &seen, &vec![Some((10, 21)), None]));
    assert!(!probe_holds(VERSION, &seen, &vec![None, Some((10, 20))]));
    assert_eq!(fingerprint(&vec![None, None]), None);
}
