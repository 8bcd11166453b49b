//! The commands, the progress and the reports of conversions.

use std::path::PathBuf;

use video_tool::consts::codec_options;
use video_tool::conversion::{
    head_lines, on_progress_line, report_conversion, report_not_converted, running_status,
    section_duration, stderr_line, ProgressState,
};
use video_tool::convert::{build_convert_args, build_ffmpeg_cmd, file_name, ConvertParams, Profile};
use video_tool::dict::Dict;
use video_tool::i18n::Lang;
use video_tool::probe::{
    ffprobe_value, media_query, parse_frame_rate, probe_color_meta, probe_media_info,
};
use video_tool::types::{Outcome, Progress, Task, UiMsg};
use video_tool::util::convert_audio_ext;

const SECOND: i64 = 1_000_000_000;

fn profile_with(trim_start: Option<i64>, trim_end: Option<i64>) -> Profile {
    let params = ConvertParams {
        codec_key: "h264".into(),
        hw_setting: "cpu".into(),
        crf: 20,
        trim_start,
        trim_end,
        ..Default::default()
    };
    build_convert_args("cpu", &params, None)
}

fn line(profile: &Profile) -> String {
    build_ffmpeg_cmd("ffmpeg", "in.mp4", "out.mp4", profile, &Dict::new(), false).join(" ")
}

#[test]
fn an_untrimmed_conversion_looks_exactly_as_it_did() {
    let l = line(&profile_with(None, None));
    assert!(!l.contains("-ss"), "{l}");
    assert!(!l.contains(" -t "), "{l}");
    assert!(l.contains("-map_chapters 0"), "{l}");
}

#[test]
fn a_trim_is_expressed_as_a_start_and_a_length_before_the_input() {
    let l = line(&profile_with(Some(10 * SECOND), Some(25 * SECOND)));
    // Both are input options, so they must come before -i.
    let ss = l.find("-ss ").unwrap();
    let t = l.find("-t ").unwrap();
    let i = l.find("-i ").unwrap();
    assert!(ss < i && t < i, "{l}");
    assert!(l.contains("-ss 10.000"), "{l}");
    // 25s end minus a 10s start is a 15s section, not a 25s one.
    assert!(l.contains("-t 15.000"), "{l}");
    // The source's chapter marks describe the untrimmed timeline.
    assert!(l.contains("-map_chapters -1"), "{l}");
}

#[test]
fn an_end_that_is_not_after_the_start_is_no_bound_at_all() {
    assert_eq!(profile_with(Some(30 * SECOND), Some(10 * SECOND)).trim_duration, None);
    assert_eq!(profile_with(Some(30 * SECOND), Some(30 * SECOND)).trim_duration, None);
    // A start on its own still seeks, it just has no length.
    let p = profile_with(Some(5 * SECOND), None);
    assert_eq!(p.trim_start, Some(5 * SECOND as u64));
    assert_eq!(p.trim_duration, None);
}

#[test]
fn an_audio_only_run_carries_the_same_cut() {
    let params = ConvertParams {
        codec_key: "audio_mp3".into(),
        hw_setting: "cpu".into(),
        trim_start: Some(3 * SECOND),
        trim_end: Some(8 * SECOND),
        ..Default::default()
    };
    let profile = build_convert_args("cpu", &params, None);
    let l = build_ffmpeg_cmd("ffmpeg", "in.mp4", "out.mp3", &profile, &Dict::new(), false).join(" ");
    assert!(l.contains("-ss 3.000"), "{l}");
    assert!(l.contains("-t 5.000"), "{l}");
    assert!(l.find("-ss ").unwrap() < l.find("-i ").unwrap(), "{l}");
}

/// The frame rate as a number, with its two halves read as floats.
fn frame_rate(text: &str) -> Option<f64> {
    let (num, den) = parse_frame_rate(text)?;
    let (num, den) = (num.parse::<f64>().ok()?, den.parse::<f64>().ok()?);
    (num > 0.0 && den > 0.0).then_some(num / den)
}

#[test]
fn frame_rates_are_read_as_the_fraction_ffprobe_reports() {
    assert_eq!(frame_rate("30/1"), Some(30.0));
    assert!((frame_rate("30000/1001").unwrap() - 29.97).abs() < 0.01);
    // A still image stream reports 0/0.
    assert_eq!(frame_rate("0/0"), None);
    assert_eq!(frame_rate("25"), None);
}

#[test]
fn a_custom_bitrate_takes_the_place_of_the_quality() {
    let params = ConvertParams {
        codec_key: "h264".into(),
        hw_setting: "cpu".into(),
        crf: 20,
        use_custom: true,
        custom_br: 8,
        ..Default::default()
    };
    let profile = build_convert_args("cpu", &params, None);
    assert!(!profile.extra.iter().any(|a| a == "-crf"), "{:?}", profile.extra);
    assert!(profile.extra.iter().any(|a| a == "8M"), "{:?}", profile.extra);
    let quality = profile_with(None, None);
    assert!(quality.extra.iter().any(|a| a == "-crf"), "{:?}", quality.extra);
}

#[test]
fn the_hardware_that_was_found_is_what_auto_means() {
    let params = ConvertParams {
        codec_key: "h264".into(),
        hw_setting: "auto".into(),
        crf: 20,
        ..Default::default()
    };
    let found = build_convert_args("nvidia", &params, None);
    assert_eq!(found.hw_resolved, "nvidia");
    assert_eq!(found.video_codec, "h264_nvenc");
    let none = build_convert_args("cpu", &params, None);
    assert_eq!(none.video_codec, "libx264");
}

#[test]
fn a_command_names_its_input_once_and_ends_with_the_output() {
    let cmd = build_ffmpeg_cmd(
        "ffmpeg",
        "in.mkv",
        "out.MP4",
        &profile_with(None, None),
        &Dict::new(),
        false,
    );
    assert_eq!(cmd.last().map(String::as_str), Some("out.MP4"));
    assert_eq!(cmd.iter().filter(|a| *a == "-i").count(), 1);
    // An extension in capitals is the same container.
    assert!(cmd.iter().any(|a| a == "+faststart"), "{cmd:?}");
    assert_eq!(file_name(&PathBuf::from("a/b/c.mp4")), "c.mp4");
}

#[test]
fn colours_that_ffprobe_does_not_know_are_left_out() {
    let meta = probe_color_meta("color_space=bt709\ncolor_range=unknown\ncolor_primaries=bt709\n");
    assert_eq!(meta.get("color_space"), Some("bt709"));
    assert_eq!(meta.get("color_range"), None);
    assert_eq!(meta.len(), 2);
}

#[test]
fn an_answer_of_ffprobe_is_its_first_usable_line() {
    assert_eq!(ffprobe_value(true, " yuv420p \n"), Some("yuv420p".to_string()));
    assert_eq!(ffprobe_value(false, "yuv420p"), None);
    assert_eq!(ffprobe_value(true, "\n"), None);
}

#[test]
fn a_source_is_summed_up_from_two_answers() {
    let video = "codec_name=h264\nwidth=1920\nheight=1080\nr_frame_rate=25/1\nduration=12.5\n";
    let info = probe_media_info("in.mp4", Some(video), Some("aac"), 1000).unwrap();
    assert_eq!(info.path, "in.mp4");
    assert_eq!((info.width, info.height), (1920, 1080));
    assert_eq!(info.vcodec, "h264");
    assert_eq!(info.acodec, "aac");
    assert_eq!(info.duration.as_deref(), Some("12.5"));
    assert_eq!(media_query("in.mp4").last().map(String::as_str), Some("in.mp4"));
}

#[test]
fn progress_blocks_become_reports() {
    let mut state = ProgressState::new();
    assert!(on_progress_line(&mut state, "frame=10", SECOND).is_none());
    assert!(on_progress_line(&mut state, "out_time_us=25000000", SECOND).is_none());
    assert!(on_progress_line(&mut state, "speed=2.0x", SECOND).is_none());
    let report = on_progress_line(&mut state, "progress=continue", SECOND).unwrap();
    assert_eq!(report.reached, Some(25_000_000_000));
    assert!(!report.end);
    assert!(report.log.is_some());
    let status = running_status(&report, Some(("12.5", "00:10")), Lang::En);
    assert!(status.contains("12.5"), "{status}");
    let end = on_progress_line(&mut state, "progress=end", SECOND).unwrap();
    assert!(end.end);
}

#[test]
fn progress_counts_against_the_section() {
    let whole = profile_with(None, None);
    assert_eq!(section_duration(60 * SECOND, &whole), 60 * SECOND);
    let cut = profile_with(Some(10 * SECOND), Some(25 * SECOND));
    assert_eq!(section_duration(60 * SECOND, &cut), 15 * SECOND);
    let open = profile_with(Some(10 * SECOND), None);
    assert_eq!(section_duration(60 * SECOND, &open), 50 * SECOND);
}

#[test]
fn a_conversion_is_announced_with_its_settings() {
    let params = ConvertParams {
        codec_key: "h264".into(),
        hw_setting: "cpu".into(),
        crf: 20,
        ..Default::default()
    };
    let profile = build_convert_args("cpu", &params, Some("yuv420p"));
    let lines = head_lines(&profile, Some("yuv420p"), &Dict::new(), None, &params, Lang::En);
    assert!(lines.iter().any(|l| l.contains("libx264")), "{lines:?}");
    assert_eq!(stderr_line("   "), None);
    assert_eq!(stderr_line(" bad frame "), Some("bad frame".to_string()));
}

#[test]
fn every_end_of_a_conversion_is_told_once() {
    let verdicts = |msgs: &[UiMsg]| {
        msgs.iter()
            .filter(|m| matches!(m, UiMsg::Finished(Task::Convert, _)))
            .count()
    };
    let done = report_conversion(false, 0, "out.mp4", Lang::En);
    assert_eq!(verdicts(&done), 1);
    assert!(done.iter().any(|m| matches!(
        m,
        UiMsg::Finished(Task::Convert, Outcome::Success(Some(p))) if p == "out.mp4"
    )));
    assert!(done
        .iter()
        .any(|m| matches!(m, UiMsg::Progress(Task::Convert, Progress::Full))));
    let failed = report_conversion(false, 1, "out.mp4", Lang::En);
    assert_eq!(verdicts(&failed), 1);
    let stopped = report_conversion(true, 0, "out.mp4", Lang::En);
    assert_eq!(verdicts(&stopped), 1);
}

#[test]
fn codecs_are_told_apart() {
    for category in ["standard", "editing", "delivery", "audio", "something else"] {
        let options = codec_options(category);
        for (i, (value, key)) in options.iter().enumerate() {
            assert_eq!(*key, format!("codec.{value}"));
            assert!(options[i + 1..].iter().all(|(other, _)| other != value));
            assert_eq!(convert_audio_ext(value).is_some(), category == "audio");
        }
    }
    assert_eq!(codec_options("something else"), codec_options("editing"));
}

#[test]
fn a_cut_is_written_as_the_double_that_stands_for_it() {
    let start = |ns: i64| {
        let l = line(&profile_with(Some(ns), None));
        let at = l.find("-ss ").unwrap() + 4;
        l[at..].split(' ').next().unwrap().to_string()
    };
    // Half a millisecond: the double lies above it, above it, and on it.
    assert_eq!(start(500_000), "0.001");
    assert_eq!(start(2_500_000), "0.003");
    assert_eq!(start(62_500_000), "0.062");
    assert_eq!(start(1_500_000), "0.002");
    assert_eq!(start(3_599_999_500_000), "3599.999");
    for k in 0..2000 {
        let ns = k * 7_000_500_000 + 500_000;
        assert_eq!(start(ns), format!("{:.3}", ns as f64 / 1e9));
    }
}

#[test]
fn a_conversion_that_cannot_start_says_why() {
    let msgs = report_not_converted(Some("no such file"), Lang::En);
    assert!(matches!(&msgs[0], UiMsg::Log(Task::Convert, l) if l == "Error: no such file"));
    assert!(matches!(&msgs[1], UiMsg::Status(Task::Convert, _)));
    assert_eq!(msgs.len(), 2);
    assert_eq!(report_not_converted(None, Lang::En).len(), 1);
}
