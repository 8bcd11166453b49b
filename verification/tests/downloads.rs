//! The commands, the runs and the reports of downloads.

use video_tool::download::{
    anon_outtmpl, build_download_cmd, build_probe_cmd, needs_anon_name, next_retry, probed_target,
    Attempt, Failure, Retry,
};
use video_tool::i18n::Lang;
use video_tool::transfer::{
    after_probe, after_run, anon_plan, conflict_question, decided_plan, failure_kind,
    on_stderr_line, on_stdout_line, output_path_from_line, playlist_plan, preflight_hints,
    renamed_plan, report_ended, report_not_started, report_spawn_error, target_rule, AfterRun,
    RunState, TargetStep, Tools,
};
use video_tool::types::{ConflictDecision, DownloadOpts, Outcome, Progress, Task, UiMsg};

fn anon(url: &str, out_dir: &str) -> Option<(String, String)> {
    anon_outtmpl(url, out_dir, &vec![], &vec![41], 0)
}

#[test]
fn only_uploader_named_hosts_get_an_anonymous_name() {
    assert!(anon("https://www.youtube.com/watch?v=abc", ".").is_none());
    assert!(anon("https://www.instagram.com/reel/abc/", ".").is_some());
    // Host matching must not care about the case of the typed URL.
    assert!(anon("https://www.INSTAGRAM.com/reel/abc/", ".").is_some());
}

/// The joined command line, for substring assertions.
fn cmd_line(quality: &str, opts: &DownloadOpts, force_overwrite: bool, retry: Retry) -> String {
    build_download_cmd(
        "yt-dlp",
        "https://www.youtube.com/watch?v=abc",
        "out",
        quality,
        &None,
        opts,
        Attempt { outtmpl: None, force_overwrite, retry },
    )
    .join(" ")
}

#[test]
fn wav_never_asks_for_a_thumbnail() {
    let opts = DownloadOpts { embed: true, ..Default::default() };
    assert!(!cmd_line("audio_wav", &opts, false, Retry::default()).contains("--embed-thumbnail"));
    // The formats that can hold one still get it.
    for q in ["audio", "audio_opus", "1080"] {
        let line = cmd_line(q, &opts, false, Retry::default());
        assert!(line.contains("--embed-thumbnail"), "{q}: {line}");
    }
}

#[test]
fn the_default_client_rotation_comes_before_web_safari() {
    let line = cmd_line("1080", &DownloadOpts::default(), false, Retry::default());
    assert!(line.contains("player_client=default,web_safari"), "{line}");
}

#[test]
fn a_rejection_drops_the_web_clients_right_away() {
    let second = next_retry(Retry::default(), Failure::Rejected);
    let line = cmd_line("1080", &DownloadOpts::default(), true, second);
    assert!(!line.contains("web_safari"), "{line}");
    // --force-overwrites turns resuming off, so it has to be turned back on
    // after it - the later option is the one yt-dlp honours.
    let force = line.find("--force-overwrites").unwrap();
    let cont = line.find("--continue").unwrap();
    assert!(force < cont, "{line}");
}

#[test]
fn a_network_hiccup_keeps_the_formats_it_had() {
    let first = Retry::default();
    let second = next_retry(first, Failure::Flaky);
    assert!(cmd_line("1080", &DownloadOpts::default(), false, second).contains("web_safari"));
    // Once dropped, the web clients stay dropped for the rest of the run.
    let third = next_retry(next_retry(first, Failure::Rejected), Failure::Flaky);
    assert!(!cmd_line("1080", &DownloadOpts::default(), false, third).contains("web_safari"));
}

#[test]
fn only_the_first_attempt_starts_from_scratch_and_runs_parallel() {
    let opts = DownloadOpts::default();
    let first = cmd_line("1080", &opts, true, Retry::default());
    assert!(!first.contains("--continue"), "{first}");
    assert!(first.contains("--concurrent-fragments 8"), "{first}");
    for kind in [Failure::Rejected, Failure::Flaky] {
        let line = cmd_line("1080", &opts, true, next_retry(Retry::default(), kind));
        assert!(line.contains("--continue"), "{kind:?}: {line}");
        assert!(line.contains("--concurrent-fragments 1"), "{kind:?}: {line}");
    }
}

#[test]
fn a_mid_transfer_rejection_is_worth_another_run() {
    assert_eq!(
        failure_kind("error: unable to download video data: http error 403: forbidden"),
        Some(Failure::Rejected)
    );
    assert_eq!(
        failure_kind("error: unable to download data: http error 503"),
        Some(Failure::Flaky)
    );
    // A missing format or a login wall will not go away on a retry.
    assert_eq!(failure_kind("error: requested format is not available"), None);
    assert_eq!(failure_kind("error: sign in to confirm your age"), None);
}

#[test]
fn a_server_that_gives_out_is_no_rejection() {
    // The same words stand in front of either: only the status tells them apart.
    let broken = |why: &str| failure_kind(&format!("error: unable to download video data: {why}"));
    assert_eq!(broken("http error 503: service unavailable"), Some(Failure::Flaky));
    assert_eq!(broken("the read operation timed out"), Some(Failure::Flaky));
    assert_eq!(broken("http error 403: forbidden"), Some(Failure::Rejected));
    assert_eq!(broken("something else"), Some(Failure::Rejected));
    // A rejection outweighs a hiccup in the same log.
    assert_eq!(broken("http error 500 then http error 403"), Some(Failure::Rejected));
}

#[test]
fn the_file_yt_dlp_wrote_is_read_off_its_own_log_lines() {
    assert_eq!(
        output_path_from_line("[download] Destination: C:/v/clip.f137.mp4"),
        Some("C:/v/clip.f137.mp4".to_string())
    );
    assert_eq!(
        output_path_from_line("[Merger] Merging formats into \"C:/v/clip.mp4\""),
        Some("C:/v/clip.mp4".to_string())
    );
    assert_eq!(
        output_path_from_line("[MoveFiles] Moving file \"tmp/a.mp4\" to \"out/a.mp4\""),
        Some("out/a.mp4".to_string())
    );
    assert_eq!(
        output_path_from_line("[download] out/a.mp4 has already been downloaded"),
        Some("out/a.mp4".to_string())
    );
    // Progress and ordinary chatter name no file.
    assert_eq!(output_path_from_line("[youtube] Extracting URL: https://x"), None);
    assert_eq!(output_path_from_line("download:  12.0%|1.2MiB/s|00:10"), None);
}

#[test]
fn a_playlist_run_asks_for_the_whole_list_in_its_own_folder() {
    let opts = DownloadOpts {
        playlist: true,
        playlist_items: "1-5".into(),
        ..Default::default()
    };
    let line = cmd_line("1080", &opts, false, Retry::default());
    assert!(line.contains("--yes-playlist"), "{line}");
    assert!(!line.contains("--no-playlist"), "{line}");
    assert!(line.contains("--playlist-items 1-5"), "{line}");
    assert!(line.contains("%(playlist_index)s"), "{line}");
    // A single video keeps the flat name it always had.
    let single = cmd_line("1080", &DownloadOpts::default(), false, Retry::default());
    assert!(single.contains("--no-playlist"), "{single}");
    assert!(!single.contains("%(playlist_index)s"), "{single}");
    assert!(!single.contains("--playlist-items"), "{single}");
}

#[test]
fn a_speed_limit_is_only_passed_when_one_was_typed() {
    let opts = DownloadOpts { rate_limit: "2M".into(), ..Default::default() };
    assert!(cmd_line("1080", &opts, false, Retry::default()).contains("--limit-rate 2M"));
    let line = cmd_line("1080", &DownloadOpts::default(), false, Retry::default());
    assert!(!line.contains("--limit-rate"), "{line}");
}

#[test]
fn the_anonymous_template_carries_no_title_field() {
    let (tmpl, stem) = anon("https://instagram.com/p/abc/", "out 50%").unwrap();
    assert!(tmpl.starts_with("out 50%%"), "directory not escaped: {tmpl}");
    assert!(tmpl.ends_with(&format!("{stem}.%(ext)s")), "got {tmpl}");
    assert!(!tmpl.contains("%(title)"), "got {tmpl}");
    let n: u64 = stem.strip_prefix("video-").unwrap().parse().unwrap();
    assert!((1..=9999).contains(&n), "got {stem}");
}

#[test]
fn a_download_command_begins_with_the_program_and_ends_with_the_url() {
    let cmd = build_download_cmd(
        "/opt/yt-dlp",
        "https://vimeo.com/1",
        "out",
        "best",
        &Some("firefox".to_string()),
        &DownloadOpts::default(),
        Attempt::default(),
    );
    assert_eq!(cmd.first().map(String::as_str), Some("/opt/yt-dlp"));
    assert_eq!(cmd.last().map(String::as_str), Some("https://vimeo.com/1"));
    let at = cmd.iter().position(|a| a == "--cookies-from-browser").unwrap();
    assert_eq!(cmd[at + 1], "firefox");
    let probe = build_probe_cmd(&cmd);
    assert_eq!(probe.last(), cmd.last());
    assert!(probe.len() > cmd.len());
}

#[test]
fn the_probed_target_gets_the_extension_of_the_audio_preset() {
    let lines = vec!["WARNING: x".to_string(), "out/clip.webm".to_string()];
    assert_eq!(probed_target(&lines, "1080"), Some("out/clip.webm".to_string()));
    assert_eq!(probed_target(&lines, "audio"), Some("out/clip.mp3".to_string()));
    assert_eq!(probed_target(&vec![], "audio"), None);
}

#[test]
fn only_instagram_addresses_need_a_neutral_name() {
    assert!(needs_anon_name("https://instagram.com/p/x"));
    assert!(!needs_anon_name("https://vimeo.com/1"));
}

#[test]
fn a_progress_line_moves_the_bar() {
    let mut state = RunState::default();
    let effect = on_stdout_line(&mut state, "download:  12.5%|1.2MiB/s|00:10", Lang::En);
    assert!(effect.msgs.iter().any(|m| matches!(
        m,
        UiMsg::Progress(Task::Download, Progress::Percent(p)) if p == "12.5"
    )));
    let line = "[download] Destination: out/a.mp4";
    on_stdout_line(&mut state, line, Lang::En);
    assert_eq!(state.produced.as_deref(), Some("out/a.mp4"));
    on_stdout_line(&mut state, "[download] out/a.mp4 has already been downloaded", Lang::En);
    assert!(state.skipped_existing);
}

#[test]
fn error_output_is_collected_and_shown() {
    let effect = on_stderr_line("ERROR: HTTP Error 403: Forbidden");
    assert!(effect.collect.is_some());
    assert!(effect.msgs.iter().any(|m| matches!(m, UiMsg::Log(Task::Download, _))));
}

#[test]
fn a_rejected_transfer_is_tried_again_three_times_at_most() {
    let logs = "error: unable to download video data: http error 403: forbidden";
    let again = after_run(0, Retry::default(), 1, logs, false, Lang::En);
    match again {
        AfterRun::Again(retry, msgs) => {
            assert!(retry.safe_clients && retry.resume && retry.low_concurrency);
            assert!(!msgs.is_empty());
        }
        AfterRun::Finish => panic!("no second run"),
    }
    assert!(matches!(
        after_run(2, Retry::default(), 1, logs, false, Lang::En),
        AfterRun::Finish
    ));
    assert!(matches!(
        after_run(0, Retry::default(), 1, logs, true, Lang::En),
        AfterRun::Finish
    ));
    assert!(matches!(
        after_run(0, Retry::default(), 0, logs, false, Lang::En),
        AfterRun::Finish
    ));
}

#[test]
fn an_old_yt_dlp_without_a_runtime_is_warned_of() {
    let tools = Tools { js_runtime: String::new(), ytdlp_version: "2020.01.01".to_string() };
    let hints = preflight_hints(
        "https://www.youtube.com/watch?v=abc",
        "1080",
        &None,
        &DownloadOpts::default(),
        &tools,
        Lang::En,
    );
    assert!(!hints.is_empty());
    let fine = Tools { js_runtime: "deno".to_string(), ytdlp_version: "2099.01.01".to_string() };
    let quiet = preflight_hints(
        "https://vimeo.com/1",
        "1080",
        &None,
        &DownloadOpts::default(),
        &fine,
        Lang::En,
    );
    assert!(quiet.is_empty(), "{quiet:?}");
}

#[test]
fn the_conflict_rule_decides_or_asks() {
    assert!(matches!(target_rule("ask"), TargetStep::Probe));
    match target_rule("overwrite") {
        TargetStep::Settled(plan) => assert!(plan.force_overwrite && !plan.cancelled),
        other => panic!("{other:?}"),
    }
    let target = Some("out/a.mp4".to_string());
    assert!(matches!(after_probe("ask", &target, true, false, Lang::En), TargetStep::Ask));
    assert!(matches!(
        after_probe("rename", &target, true, false, Lang::En),
        TargetStep::Rename
    ));
    match after_probe("ask", &target, false, false, Lang::En) {
        TargetStep::Settled(plan) => assert!(plan.outtmpl.is_none() && !plan.force_overwrite),
        other => panic!("{other:?}"),
    }
}

#[test]
fn the_answer_to_a_conflict_becomes_a_plan() {
    let q = conflict_question("out/a.mp4", "out/a (1).mp4");
    assert_eq!(q.target, "out/a.mp4");
    assert_eq!(q.suggestion, "a (1).mp4");
    let over = decided_plan(&Some(ConflictDecision::Overwrite), "out/a.mp4", Lang::En);
    assert!(over.force_overwrite);
    let skip = decided_plan(&Some(ConflictDecision::Skip), "out/a.mp4", Lang::En);
    assert!(skip.cancelled);
    let renamed = decided_plan(
        &Some(ConflictDecision::Rename("out/b.mp4".to_string())),
        "out/a.mp4",
        Lang::En,
    );
    assert_eq!(renamed.outtmpl.as_deref(), Some("out/b.%(ext)s"));
    let silent = decided_plan(&None, "out/a.mp4", Lang::En);
    assert!(silent.cancelled);
    let free = renamed_plan("out/a.mp4", "out/a (1).mp4", Lang::En);
    assert_eq!(free.outtmpl.as_deref(), Some("out/a (1).%(ext)s"));
    assert_eq!(
        free.log.as_deref(),
        Some("\"a.mp4\" already exists - saving as \"a (1).mp4\".")
    );
    let anon = anon_plan("out/video-7.%(ext)s", "video-7", Lang::En);
    assert_eq!(anon.outtmpl.as_deref(), Some("out/video-7.%(ext)s"));
    assert!(!playlist_plan("ask", Lang::En).cancelled);
}

fn outcome_of(msgs: &[UiMsg]) -> Vec<&Outcome> {
    msgs.iter()
        .filter_map(|m| match m {
            UiMsg::Finished(Task::Download, o) => Some(o),
            _ => None,
        })
        .collect()
}

#[test]
fn every_end_of_a_download_is_told_once() {
    let produced = Some("out/a.mp4".to_string());
    let done = report_ended(false, 0, false, "", &produced, "deno", Lang::En);
    match outcome_of(&done).as_slice() {
        [Outcome::Success(Some(p))] => assert_eq!(p, "out/a.mp4"),
        other => panic!("{other:?}"),
    }
    let failed = report_ended(false, 1, false, "", &produced, "deno", Lang::En);
    assert!(matches!(outcome_of(&failed).as_slice(), [Outcome::Failed]));
    let stopped = report_ended(true, 1, false, "", &produced, "deno", Lang::En);
    assert!(matches!(outcome_of(&stopped).as_slice(), [Outcome::Cancelled]));
    let never = report_not_started(true, Lang::En);
    assert!(matches!(outcome_of(&never).as_slice(), [Outcome::Cancelled]));
    let skipped = report_not_started(false, Lang::En);
    assert!(matches!(outcome_of(&skipped).as_slice(), [Outcome::Skipped]));
}

#[test]
fn a_run_that_never_began_says_why() {
    let broken = report_spawn_error(Some("no such file"), Lang::En);
    assert!(outcome_of(&broken).is_empty());
    match broken.as_slice() {
        [UiMsg::Log(Task::Download, line), UiMsg::Status(Task::Download, _)] => {
            assert!(line.contains("no such file"), "{line}");
        }
        other => panic!("{other:?}"),
    }
    assert_eq!(report_spawn_error(None, Lang::En).len(), 1);
}
