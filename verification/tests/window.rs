//! The queue, the history, the settings and the rest of the window.

use video_tool::config::Config;
use video_tool::consts::{HISTORY_LIMIT, QUALITY_OPTIONS, VERSION};
use video_tool::forms::{
    adopts_answer, check_output, converted_path, estimate_bytes, output_with_ext, rename_target,
    trim_bounds, trim_text, ConvertForm, DownloadForm, TrimField,
};
use video_tool::history::{count_shown, finished_job, load, push, store, Entry, Kind};
use video_tool::i18n::{t, tf, Lang, LANGS};
use video_tool::log::{log_color, log_file_name, log_text, opening_lines, push_log, MAX_LOG};
use video_tool::queue::{is_http_url, Prepared, Queue, Step};
use video_tool::session::{Effect, Session};
use video_tool::shell::{
    drop_expired, handle_shortcuts, is_dark, new_toast, next_theme, Action, Keys, TAB_CONVERT,
    TAB_DOWNLOAD, TAB_INFO,
};
use video_tool::types::{
    BinaryStatus, ConflictReq, MediaInfo, Outcome, Progress, QueueState, Task, UiMsg,
};
use video_tool::view::{
    chip_text, codec_hint, hw_label, label_of, openable, pasted_url, progress_text, queue_mark,
    queue_state_key, relative_when, short_url, start_label, titled_job, video_text, window_title,
};

const SECOND: i64 = 1_000_000_000;

// ---------------- the queue ----------------

#[test]
fn only_http_urls_are_accepted_for_the_queue() {
    assert!(is_http_url("https://example.com/v"));
    assert!(is_http_url("HTTP://example.com/v"));
    assert!(!is_http_url("file:///etc/passwd"));
    assert!(!is_http_url("example.com/v"));
    assert!(!is_http_url(""));
}

#[test]
fn a_long_url_is_shortened_without_splitting_a_character() {
    let short = "https://youtu.be/abc";
    assert_eq!(short_url(short), "youtu.be/abc");
    let long = format!("https://example.com/{}", "ä".repeat(200));
    let out = short_url(&long);
    assert!(out.contains("..."), "{out}");
    assert!(out.chars().count() < 100, "{out}");
    // The tail is the end of the URL, so two similar links stay apart.
    assert!(out.ends_with(&"ä".repeat(9)), "{out}");
}

#[test]
fn every_queue_state_has_a_translated_label() {
    for state in [
        QueueState::Pending,
        QueueState::Running,
        QueueState::Done,
        QueueState::Failed,
        QueueState::Skipped,
    ] {
        let key = queue_state_key(state);
        for lang in LANGS {
            assert_ne!(t(lang, key), key, "missing {key} for {lang:?}");
        }
        assert!(!queue_mark(state).is_empty());
    }
}

fn queue_of(urls: &[&str]) -> Queue {
    let mut q = Queue::new();
    for url in urls {
        q.enqueue_typed_url(url).unwrap();
    }
    q
}

fn url_of(step: Step) -> String {
    match step {
        Step::Download(url) => url,
        other => panic!("{other:?}"),
    }
}

#[test]
fn unusable_addresses_are_not_queued() {
    let mut q = queue_of(&[" https://a "]);
    assert_eq!(q.item(0).url, "https://a");
    assert_eq!(q.enqueue_typed_url("  "), Err("toast.need_url"));
    assert_eq!(q.enqueue_typed_url("ftp://a"), Err("toast.bad_url"));
    assert_eq!(q.enqueue_typed_url("https://a"), Err("dl.queue_dupe"));
    assert_eq!(q.len(), 1);
}

#[test]
fn the_list_is_worked_off_in_order() {
    let mut q = queue_of(&["https://a", "https://b"]);
    assert_eq!(url_of(q.start_downloads()), "https://a");
    assert!(q.is_busy());
    assert!(matches!(q.start_downloads(), Step::Idle));
    q.report(Outcome::Success(None));
    let (outcome, step) = q.download_ended();
    assert!(matches!(outcome, Some(Outcome::Success(None))));
    assert_eq!(url_of(step), "https://b");
    // The second worker dies without a word.
    let (outcome, step) = q.download_ended();
    assert!(matches!(outcome, Some(Outcome::Failed)));
    assert!(matches!(step, Step::Finished(Some((1, 1)))));
    assert_eq!(q.count(QueueState::Failed), 1);
    // Queueing something again after it finished is a normal way to retry it.
    assert!(q.enqueue_typed_url("https://a").is_ok());
}

#[test]
fn a_single_download_needs_no_summary() {
    let mut q = queue_of(&["https://a"]);
    q.start_downloads();
    q.report(Outcome::Skipped);
    let (_, step) = q.download_ended();
    assert!(matches!(step, Step::Finished(None)));
    assert_eq!(q.item(0).state, QueueState::Skipped);
    assert!(matches!(q.download_ended(), (None, Step::Idle)));
}

#[test]
fn stop_stops_the_list_and_start_picks_it_up_again() {
    let mut q = queue_of(&["https://a", "https://b", "https://c"]);
    q.start_downloads();
    q.report(Outcome::Success(None));
    q.download_ended();
    q.stop_download();
    q.report(Outcome::Cancelled);
    let (outcome, step) = q.download_ended();
    assert!(matches!(outcome, Some(Outcome::Cancelled)));
    assert!(matches!(step, Step::Idle));
    assert_eq!(q.item(1).state, QueueState::Pending);
    assert_eq!(url_of(q.start_downloads()), "https://b");
}

#[test]
fn the_running_entry_survives_every_clearing() {
    let mut q = queue_of(&["https://a", "https://b", "https://c"]);
    q.start_downloads();
    q.report(Outcome::Failed);
    assert_eq!(url_of(q.download_ended().1), "https://b");
    q.remove(0);
    assert_eq!(q.item(0).state, QueueState::Running);
    q.clear_done();
    assert_eq!(q.len(), 2);
    q.clear_all();
    assert_eq!(q.len(), 1);
    assert_eq!(q.item(0).url, "https://b");
    q.report(Outcome::Success(None));
    let (outcome, step) = q.download_ended();
    assert!(outcome.is_some());
    assert!(matches!(step, Step::Idle));
    assert_eq!(q.item(0).state, QueueState::Done);
}

#[test]
fn a_start_needs_something_to_do() {
    let mut q = Queue::new();
    assert!(matches!(q.prepare_start(" "), Prepared::Refused("toast.need_url")));
    assert!(matches!(q.prepare_start("nope"), Prepared::Refused("toast.bad_url")));
    assert!(matches!(q.prepare_start("https://a"), Prepared::Ready));
    assert!(matches!(q.prepare_start(""), Prepared::Ready));
    q.start_downloads();
    assert!(matches!(q.prepare_start(""), Prepared::Busy));
}

// ---------------- the history ----------------

fn entry(path: &str) -> Entry {
    Entry {
        name: path.to_string(),
        path: path.to_string(),
        ..Default::default()
    }
}

#[test]
fn the_newest_run_of_a_file_is_the_one_that_is_kept() {
    let mut list = vec![entry("a.mp4"), entry("b.mp4")];
    push(&mut list, entry("a.mp4"));
    assert_eq!(list.len(), 2);
    assert_eq!(list[0].path, "a.mp4");
    assert_eq!(list[1].path, "b.mp4");
}

#[test]
fn entries_without_a_path_are_all_kept() {
    let mut list = Vec::new();
    push(&mut list, Entry { name: "one".into(), ..Default::default() });
    push(&mut list, Entry { name: "two".into(), ..Default::default() });
    assert_eq!(list.len(), 2);
}

#[test]
fn the_list_never_grows_past_its_limit() {
    let mut list = Vec::new();
    for i in 0..HISTORY_LIMIT + 20 {
        push(&mut list, entry(&format!("{i}.mp4")));
    }
    assert_eq!(list.len(), HISTORY_LIMIT);
    // The most recent push is the one at the front.
    assert_eq!(list[0].path, format!("{}.mp4", HISTORY_LIMIT + 19));
}

#[test]
fn a_malformed_record_does_not_cost_the_rest() {
    let read = load(vec![Some(entry("a")), None, Some(entry("b"))]);
    assert_eq!(read.len(), 2);
    assert_eq!(read[1].path, "b");
    let many: Vec<Entry> = (0..HISTORY_LIMIT + 1).map(|i| entry(&i.to_string())).collect();
    assert_eq!(store(&many).len(), HISTORY_LIMIT);
    assert_eq!(store(&read).len(), 2);
}

#[test]
fn a_job_goes_by_its_file_or_by_its_url() {
    let e = finished_job(Kind::Download, Some("out/a.mp4"), "https://x", "HD", 7).unwrap();
    assert_eq!((e.name.as_str(), e.path.as_str(), e.when), ("a.mp4", "out/a.mp4", 7));
    let e = finished_job(Kind::Download, None, "https://x", "HD", 7).unwrap();
    assert_eq!((e.name.as_str(), e.path.as_str()), ("https://x", ""));
    assert!(finished_job(Kind::Convert, None, "", "", 7).is_none());
}

#[test]
fn an_entry_knows_its_folder() {
    let e = entry("out/a.mp4");
    assert_eq!(e.folder(true), Some("out".to_string()));
    assert_eq!(e.folder(false), None);
    assert_eq!(e.parent(), Some("out".to_string()));
    let parent = |path: &str| Entry { path: path.to_string(), ..Default::default() }.parent();
    assert_eq!(parent("/a.mp4").as_deref(), Some("/"));
    assert_eq!(parent("a.mp4").as_deref(), Some(""));
    assert_eq!(parent("out/./a.mp4/").as_deref(), Some("out"));
    assert_eq!(parent("./").as_deref(), Some(""));
    assert_eq!(parent("out/..").as_deref(), Some("out"));
    assert_eq!(parent("/"), None);
    assert_eq!(parent(""), None);
    assert!(e.present(true) && !e.present(false));
    assert!(!entry("").present(true));
    assert_eq!(Kind::Download.icon(), "⬇");
    let mut c = entry("b");
    c.kind = Kind::Convert;
    let list = vec![e, c];
    assert_eq!(count_shown(&list, "convert"), 1);
    assert_eq!(count_shown(&list, "all"), 2);
}

#[test]
fn ages_are_told_in_the_coarsest_unit() {
    assert_eq!(relative_when(Lang::En, 0, 1000), "");
    assert_eq!(relative_when(Lang::En, 1000, 1089), t(Lang::En, "when.now"));
    assert_eq!(relative_when(Lang::En, 2000, 1000), t(Lang::En, "when.now"));
    assert_eq!(relative_when(Lang::En, 1000, 1090), tf(Lang::En, "when.minutes", &["1"]));
    assert_eq!(relative_when(Lang::En, 1, 7201), tf(Lang::En, "when.hours", &["2"]));
    assert_eq!(relative_when(Lang::En, 1, 172_801), tf(Lang::En, "when.days", &["2"]));
}

// ---------------- the settings ----------------

#[test]
fn a_setting_is_read_back_from_the_file_it_was_written_to() {
    let mut c = Config::load("/home/me", None, 0);
    assert_eq!(c.file(), "/home/me/config.json");
    assert_eq!(c.tmp_file(), "/home/me/config.json.tmp");
    assert_eq!(c.get_str("theme", "dark"), "dark");
    assert!(c.get_bool("embed", true));
    c.set_str("theme", "light \"x\" ü");
    c.set_bool("embed", false);
    let text = c.flush(true, 10).unwrap();
    let again = Config::load("/home/me", Some(&text), 0);
    assert_eq!(again.get_str("theme", "dark"), "light \"x\" ü");
    assert!(!again.get_bool("embed", true));
    // A value of another kind is as good as none.
    assert_eq!(again.get_str("embed", "?"), "?");
}

#[test]
fn writes_are_coalesced_and_never_lost() {
    let mut c = Config::load("", None, 1000);
    assert!(c.flush(true, 1000).is_none());
    c.set_str("a", "1");
    assert!(c.flush(false, 2499).is_none());
    assert!(c.flush(false, 2500).is_some());
    assert!(c.flush(true, 2500).is_none());
    c.set_str("a", "1");
    assert!(c.flush(true, 2500).is_none());
    c.set_str("a", "2");
    assert!(c.flush(true, 2500).is_some());
    c.set_bool("b", true);
    assert!(c.flush(true, 0).is_some());
}

#[test]
fn a_broken_file_is_no_settings() {
    for text in ["", "[1]", "{", "\"x\""] {
        let c = Config::load("", Some(text), 0);
        assert_eq!(c.get_str("a", "none"), "none");
        assert!(c.get_value("a").is_none());
    }
}

#[test]
fn values_of_any_kind_are_kept() {
    let mut c = Config::load("", Some("{\"a\":[1,{\"b\":null}]}"), 0);
    assert!(c.get_value("a").unwrap().is_array());
    c.set_value("n", serde_json::Value::from(7u64));
    let text = c.flush(true, 0).unwrap();
    let again = Config::load("", Some(&text), 0);
    assert_eq!(again.get_value("n").unwrap().as_u64(), Some(7));
    assert_eq!(again.get_value("a"), c.get_value("a"));
}

// ---------------- the forms ----------------

fn form() -> DownloadForm {
    DownloadForm::read(&Config::load("", None, 0), "/dl")
}

#[test]
fn an_empty_file_of_settings_gives_the_defaults() {
    let f = form();
    assert_eq!(f.output, "/dl");
    assert_eq!((f.quality.as_str(), f.cookies.as_str(), f.conflict.as_str()), ("best", "none", "ask"));
    assert!(f.embed && !f.subs && !f.playlist);
    assert_eq!(f.subs_lang, "en,de");
    let text = "{\"last_quality\":\"1080\",\"embed\":false}";
    let g = DownloadForm::read(&Config::load("", Some(text), 0), "/dl");
    assert_eq!(g.quality, "1080");
    assert!(!g.embed);
}

#[test]
fn a_run_needs_sound_settings() {
    let mut f = form();
    assert_eq!(f.problem(true, false), None);
    assert_eq!(f.problem(false, false), Some("toast.no_ytdlp"));
    f.rate_limit = "fast".to_string();
    assert_eq!(f.problem(true, false), Some("toast.bad_rate"));
    f.cookies = "cookiefile".to_string();
    assert_eq!(f.problem(true, true), Some("toast.no_cookiefile"));
    f.cookiefile = "c.txt".to_string();
    assert_eq!(f.problem(true, false), Some("toast.no_cookiefile"));
    f.output = " ".to_string();
    assert_eq!(f.problem(true, true), Some("toast.need_folder"));
}

#[test]
fn the_fields_become_the_options_of_a_run() {
    let mut f = form();
    f.impersonate = true;
    f.subs_lang = " ".to_string();
    f.cookiefile = "c.txt".to_string();
    f.playlist_items = "1;2".to_string();
    let o = f.options(false, "/plugins");
    assert!(!o.impersonate && !o.impersonate_available);
    assert_eq!(o.subs_lang, "en,de");
    assert_eq!(o.cookiefile, "");
    assert_eq!(o.playlist_items, "12");
    assert_eq!(o.plugins_dir, "/plugins");
    assert_eq!(f.browser(), None);
    f.cookies = "firefox".to_string();
    assert_eq!(f.browser(), Some("firefox".to_string()));
    f.cookies = "cookiefile".to_string();
    assert_eq!(f.options(true, "").cookiefile, "c.txt");
    assert!(f.options(true, "").impersonate);
}

fn convert_form() -> ConvertForm {
    ConvertForm {
        input: " in.mp4 ".to_string(),
        output: "out.mp4".to_string(),
        codec: "audio_mp3".to_string(),
        hw: "auto".to_string(),
        bitrate_mode: "custom".to_string(),
        crf: 20,
        custom_br: 8,
        preserve_color: true,
    }
}

#[test]
fn an_audio_codec_decides_the_extension() {
    let mut f = convert_form();
    assert_eq!(f.output_path(), "out.mp3");
    f.output = "out.MP3".to_string();
    assert_eq!(f.output_path(), "out.MP3");
    f.codec = "h264".to_string();
    assert_eq!(f.output_path(), "out.MP3");
    assert_eq!(output_with_ext("a.x", Some("x"), "audio_wav"), "a.wav");
    assert_eq!(converted_path("d/in.mkv"), "d/in_converted.mp4");
}

#[test]
fn a_conversion_needs_two_different_files() {
    let mut f = convert_form();
    assert_eq!(f.check_input(true), None);
    assert_eq!(f.check_input(false), Some("toast.no_input"));
    f.output = " ".to_string();
    assert_eq!(f.check_input(true), Some("toast.need_io"));
    assert_eq!(check_output(true, true), Some("toast.same_io"));
    assert_eq!(check_output(false, false), Some("toast.no_ffmpeg"));
    assert_eq!(check_output(false, true), None);
    let p = f.params((Some(1), None));
    assert!(p.use_custom);
    assert_eq!((p.custom_br, p.trim_start, p.trim_end), (8, Some(1), None));
}

#[test]
fn trim_fields_make_sense_or_do_not() {
    let at = |s: i64| TrimField::At(s * SECOND);
    assert_eq!(trim_bounds(TrimField::Empty, TrimField::Empty), Some((None, None)));
    assert_eq!(trim_bounds(TrimField::Bad, at(5)), None);
    assert_eq!(trim_bounds(at(5), TrimField::Bad), None);
    assert_eq!(trim_bounds(at(5), at(5)), None);
    assert_eq!(trim_bounds(TrimField::Empty, at(0)), None);
    let some = trim_bounds(at(5), at(65));
    assert_eq!(some, Some((Some(5 * SECOND), Some(65 * SECOND))));
    assert_eq!(trim_text(Lang::En, some), tf(Lang::En, "cv.trim_active", &["0:01:00"]));
    assert_eq!(trim_text(Lang::En, None), t(Lang::En, "cv.trim_bad"));
    assert_eq!(trim_text(Lang::En, Some((None, None))), "");
    let open = format!("0:00:05 -> {}", t(Lang::En, "cv.trim_end_of_file"));
    assert_eq!(
        trim_text(Lang::En, trim_bounds(at(5), TrimField::Empty)),
        tf(Lang::En, "cv.trim_active", &[&open])
    );
}

#[test]
fn a_custom_bitrate_can_be_estimated() {
    // 8 Mbit/s of video and 192 kbit/s of audio over ten seconds.
    assert_eq!(estimate_bytes(8, 10_000_000_000), 10_240_000);
    assert_eq!(estimate_bytes(-1, 10), 0);
    let mut f = convert_form();
    f.codec = "h264".to_string();
    let whole = f.output_estimate(10 * SECOND, Some((None, None)));
    assert_eq!(whole, Some("9.8 MB".to_string()));
    let cut = f.output_estimate(10 * SECOND, Some((Some(5 * SECOND), None)));
    assert_eq!(cut, Some("4.9 MB".to_string()));
    assert_eq!(f.output_estimate(10 * SECOND, None), None);
    f.bitrate_mode = "crf".to_string();
    assert_eq!(f.output_estimate(10 * SECOND, Some((None, None))), None);
}

#[test]
fn a_renamed_file_stays_beside_its_target() {
    assert_eq!(rename_target("new.mkv", "out/a.mp4"), Ok("out/new.mp4".to_string()));
    assert_eq!(rename_target("../x", "out/a.mp4"), Ok("out/.._x.mp4".to_string()));
    assert_eq!(rename_target("plain", "out/a"), Ok("out/plain".to_string()));
    assert_eq!(rename_target(" .. ", "out/a.mp4"), Err("conflict.need_name"));
}

#[test]
fn a_late_answer_is_not_adopted() {
    assert!(adopts_answer(Some("a"), "b", " a "));
    assert!(adopts_answer(None, "a", "a"));
    assert!(!adopts_answer(Some("b"), "b", "a"));
}

// ---------------- the log ----------------

#[test]
fn a_log_keeps_its_latest_lines() {
    let mut log = opening_lines(Lang::En);
    assert_eq!(log.len(), 4);
    assert_eq!(log[1], format!("  {}", "-".repeat(36)));
    assert!(log[0].contains(VERSION));
    push_log(&mut log, "one\r\ntwo\n");
    assert_eq!(&log[4..], &["one".to_string(), "two".to_string(), String::new()]);
    for i in 0..MAX_LOG {
        push_log(&mut log, &i.to_string());
    }
    assert_eq!(log.len(), MAX_LOG);
    assert_eq!(log[0], "0");
}

#[test]
fn a_log_is_copied_or_saved_unless_it_is_blank() {
    let log = vec!["a".to_string(), "b".to_string()];
    assert_eq!(log_text(&log, false), Some("a\nb".to_string()));
    assert_eq!(log_text(&log, true), Some("a\r\nb".to_string()));
    assert_eq!(log_text(&vec![" ".to_string()], true), None);
    assert_eq!(log_file_name(Task::Convert), "video-tool-convert.txt");
}

#[test]
fn lines_are_coloured_by_what_they_are_about() {
    assert_eq!(log_color("=== x ERROR", true), (159, 168, 218));
    assert_eq!(log_color("an ERROR", true), (239, 154, 154));
    assert_eq!(log_color("Completed", false), (27, 94, 32));
    assert_eq!(log_color("fps=25", true), (128, 222, 234));
    assert_eq!(log_color("hello", false), (55, 55, 60));
}

// ---------------- the rest of the window ----------------

#[test]
fn the_keyboard_starts_stops_and_switches() {
    let none = Keys { command: false, tab: None, enter: false, escape: false };
    let tab = Keys { command: true, tab: Some(3), ..none };
    let enter = Keys { command: true, enter: true, ..none };
    let esc = Keys { escape: true, ..none };
    assert_eq!(handle_shortcuts(tab, false, 0, false, false), Action::Tab(3));
    assert_eq!(handle_shortcuts(enter, false, TAB_DOWNLOAD, false, false), Action::StartDownload);
    assert_eq!(handle_shortcuts(enter, false, TAB_CONVERT, false, false), Action::StartConvert);
    assert_eq!(handle_shortcuts(enter, false, TAB_INFO, false, false), Action::Nothing);
    assert_eq!(handle_shortcuts(esc, false, 0, true, false), Action::Stop(true, false));
    assert_eq!(handle_shortcuts(esc, true, 0, true, true), Action::Nothing);
    assert_eq!(handle_shortcuts(none, false, 0, true, true), Action::Nothing);
}

#[test]
fn short_messages_go_after_three_seconds() {
    let mut toasts = vec![new_toast("a", false, 0), new_toast("b", true, 10)];
    drop_expired(&mut toasts, 3000);
    assert_eq!(toasts.len(), 1);
    assert_eq!(toasts[0].msg, "b");
    drop_expired(&mut toasts, 3010);
    assert!(toasts.is_empty());
    assert!(is_dark("odd") && !is_dark("light"));
    assert_eq!((next_theme("light"), next_theme("dark")), ("dark", "light"));
}

#[test]
fn labels_and_hints_fit_their_options() {
    assert_eq!(
        label_of(Lang::En, QUALITY_OPTIONS[0].0, &QUALITY_OPTIONS),
        t(Lang::En, QUALITY_OPTIONS[0].1)
    );
    assert_eq!(label_of(Lang::En, "odd", &QUALITY_OPTIONS), "odd");
    assert_eq!(codec_hint("audio_mp3", true), Some("cv.hint_audio_only"));
    assert_eq!(codec_hint("prores_422", false), Some("cv.hint_cpu"));
    assert_eq!(codec_hint("copy", false), Some("cv.hint_copy"));
    assert_eq!(codec_hint("av1", false), Some("cv.hint_av1"));
    assert_eq!(codec_hint("h264", false), None);
    assert_eq!(hw_label("nvidia"), "NVIDIA NVENC");
    assert_eq!(hw_label("?"), "CPU");
    assert_eq!(chip_text("yt-dlp", &"9".repeat(20)), format!("yt-dlp: {}", "9".repeat(16)));
    assert_eq!(start_label(Lang::En, 0, "x"), t(Lang::En, "dl.start"));
    assert_eq!(start_label(Lang::En, 1, "x"), tf(Lang::En, "dl.start_queue", &["2"]));
}

#[test]
fn the_progress_of_a_download_is_told_in_megabytes() {
    for (w, total) in [(0u64, 0u64), (1_572_864, 3_145_728), (1, 3), (5, 1000), (15, 1000), (7, 5)] {
        let mb = format!("{:.1}", w as f64 / (1024.0 * 1024.0));
        let want = if total > 0 {
            let pct = format!("{:.0}", w as f64 * 100.0 / total as f64);
            tf(Lang::En, "setup.progress_pct", &["x", &pct, &mb])
        } else {
            tf(Lang::En, "setup.progress_plain", &["x", &mb])
        };
        assert_eq!(progress_text(Lang::En, "x", w, total), want, "{w}/{total}");
    }
}

#[test]
fn a_source_is_described_as_far_as_it_is_known() {
    assert_eq!(video_text(1920, 1080, Some("25.00"), "h264"), "1920x1080 @ 25.00 fps (h264)");
    assert_eq!(video_text(0, 1080, None, "h264"), "(h264)");
    assert_eq!(video_text(0, 0, Some("25.00"), ""), "@ 25.00 fps");
    assert_eq!(video_text(0, 0, None, ""), "");
}

#[test]
fn the_title_carries_the_running_job() {
    let base = window_title(None);
    assert!(base.ends_with(&format!("v{VERSION}")));
    assert_eq!(window_title(Some(("42", "Download"))), format!("42% Download - {base}"));
    assert_eq!(titled_job(true, true, true, true), Some("nav.download"));
    assert_eq!(titled_job(true, false, true, true), None);
    assert_eq!(titled_job(false, false, true, true), Some("nav.convert"));
}

#[test]
fn only_plain_addresses_are_pasted_or_opened() {
    assert_eq!(pasted_url(" https://a.b/c \n"), Some("https://a.b/c".to_string()));
    assert_eq!(pasted_url("http://x"), Some("http://x".to_string()));
    for text in ["https://", "https://a b", "ftp://a", "x https://a", ""] {
        assert_eq!(pasted_url(text), None, "{text}");
    }
    assert!(openable("https://a"));
    assert!(!openable("http://a") && !openable("https://a --x"));
}

// ---------------- the session ----------------

fn session() -> Session {
    Session::new(Lang::En, form(), vec![])
}

#[test]
fn a_download_runs_through_the_session() {
    let mut s = session();
    assert_eq!(s.dl.status, t(Lang::En, "status.ready"));
    s.queue.enqueue_typed_url("https://a").unwrap();
    let step = s.queue.start_downloads();
    let url = s.follow(step, 0).unwrap();
    assert_eq!(url, "https://a");
    assert_eq!(s.dl.log.last().map(String::as_str), Some(""));
    assert_eq!(s.dl.status, t(Lang::En, "status.downloading"));
    s.hear(UiMsg::Progress(Task::Download, Progress::Percent("50".to_string())), "", 0);
    assert!(matches!(&s.dl.bar, Progress::Percent(p) if p == "50"));
    let done = Outcome::Success(Some("out/a.mp4".to_string()));
    s.hear(UiMsg::Finished(Task::Download, done), "", 0);
    match s.hear(UiMsg::Busy(Task::Download, false), "", 0) {
        Effect::Ended(Some(Outcome::Success(Some(p))), step) => {
            s.remember_download(Some(&p), 9);
            assert!(s.follow(step, 0).is_none());
        }
        other => panic!("{other:?}"),
    }
    assert!(matches!(s.dl.bar, Progress::Hidden));
    assert_eq!(s.history[0].name, "a.mp4");
    assert_eq!(s.history[0].url, "https://a");
    assert_eq!(s.history[0].detail, label_of(Lang::En, "best", &QUALITY_OPTIONS));
    assert!(s.toasts.is_empty());
}

#[test]
fn a_conversion_runs_through_the_session() {
    let mut s = session();
    s.convert_started("in.mp4");
    assert!(s.cv_busy);
    s.hear(UiMsg::Log(Task::Convert, "x".to_string()), "", 0);
    assert_eq!(s.cv.log.last().map(String::as_str), Some("x"));
    let done = Outcome::Success(Some("out/b.mp4".to_string()));
    match s.hear(UiMsg::Finished(Task::Convert, done), "", 0) {
        Effect::Converted(p) => s.remember_convert(&p, 3),
        other => panic!("{other:?}"),
    }
    assert_eq!(s.last_output, "out/b.mp4");
    assert_eq!(s.history[0].kind, Kind::Convert);
    s.hear(UiMsg::Busy(Task::Convert, false), "", 0);
    assert!(!s.cv_busy);
    s.stop_convert();
    assert_eq!(s.cv.status, t(Lang::En, "status.cancelled"));
}

#[test]
fn a_finished_queue_is_summed_up_in_a_message() {
    let mut s = session();
    s.follow(Step::Finished(Some((2, 1))), 5);
    assert_eq!(s.toasts[0].msg, tf(Lang::En, "dl.queue_done", &["2", "1"]));
    assert!(s.toasts[0].error);
    s.hear(UiMsg::Toast("hi".to_string(), false), "", 5);
    assert_eq!(s.toasts[1].msg, "hi");
}

#[test]
fn tools_without_impersonation_switch_it_off() {
    let mut s = session();
    s.download.impersonate = true;
    let tools = BinaryStatus { ffmpeg_ok: true, ..Default::default() };
    assert!(matches!(s.hear(UiMsg::Binary(tools), "", 0), Effect::Probed));
    assert!(!s.download.impersonate);
    s.convert.input = " in.mp4 ".to_string();
    assert_eq!(s.start_media_probe(false), None);
    assert_eq!(s.start_media_probe(true), Some("in.mp4".to_string()));
    let late = MediaInfo { path: "old.mp4".to_string(), ..Default::default() };
    s.info_for = "old.mp4".to_string();
    s.hear(UiMsg::MediaInfo(Some(late)), "", 0);
    assert!(s.info.is_none() && s.info_probing);
    let info = MediaInfo { path: "in.mp4".to_string(), ..Default::default() };
    s.hear(UiMsg::MediaInfo(Some(info)), "", 0);
    assert!(s.info.is_some() && !s.info_probing);
}

#[test]
fn idle_statuses_change_with_the_language() {
    let mut s = session();
    assert!(!s.set_lang(Lang::En));
    s.cv_busy = true;
    assert!(s.set_lang(Lang::De));
    assert_eq!(s.dl.status, t(Lang::De, "status.ready"));
    assert_eq!(s.cv.status, t(Lang::En, "status.ready"));
    let req = ConflictReq { target: "a".to_string(), suggestion: "b".to_string() };
    s.hear(UiMsg::Conflict(req), "", 0);
    assert_eq!(s.conflict_name, "b");
    s.hear(UiMsg::SetupLog("x".to_string()), "", 0);
    s.hear(UiMsg::SetupBusy(true), "", 0);
    assert!(s.setup_busy && s.setup_log == "x");
    s.stop_download();
    assert_eq!(s.dl.status, t(Lang::De, "status.cancelled"));
}
