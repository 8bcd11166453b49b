//! Downloads from start to end, and the tasks of the Setup tab.

use video_tool::i18n::{t, tf, Lang};
use video_tool::job::{Action, Event, Job, Request, Run, Stage};
use video_tool::setup::{setup_done, setup_failed, setup_started, SetupTask};
use video_tool::transfer::Tools;
use video_tool::types::{BinaryStatus, ConflictDecision, DownloadOpts, Outcome, Task, UiMsg};

fn job(url: &str, conflict: &str) -> Job {
    Job::new(Request {
        program: "yt-dlp".to_string(),
        url: url.to_string(),
        out_dir: "out".to_string(),
        quality: "1080".to_string(),
        cookies: None,
        opts: DownloadOpts { conflict: conflict.to_string(), ..Default::default() },
        tools: Tools {
            js_runtime: "deno".to_string(),
            ytdlp_version: "2099.01.01".to_string(),
        },
        lang: Lang::En,
    })
}

fn run(code: i32, logs: &str, produced: Option<&str>) -> Event {
    Event::Ran(Run {
        code,
        skipped_existing: false,
        logs: logs.to_string(),
        produced: produced.map(str::to_string),
    })
}

fn verdict(msgs: &[UiMsg]) -> Option<&Outcome> {
    match msgs.last() {
        Some(UiMsg::Finished(Task::Download, o)) => Some(o),
        _ => None,
    }
}

fn command(action: Action) -> String {
    match action {
        Action::Run(cmd) | Action::Probe(cmd) => cmd.join(" "),
        other => panic!("{other:?}"),
    }
}

fn looked_for(action: Action) -> String {
    match action {
        Action::Look(path) => path,
        other => panic!("{other:?}"),
    }
}

const PAGE: &str = "https://vimeo.com/1";
const REJECTED: &str = "error: unable to download video data: http error 403: forbidden";

#[test]
fn a_plain_download_runs_once() {
    let mut j = job(PAGE, "skip");
    let (msgs, action) = j.step(Event::Begin, false);
    assert!(msgs.iter().all(|m| !matches!(m, UiMsg::Finished(..))));
    let cmd = command(action);
    assert!(!cmd.contains("--force-overwrites"), "{cmd}");
    let (msgs, action) = j.step(run(0, "", Some("out/a.mp4")), false);
    assert!(matches!(action, Action::Finish));
    assert!(matches!(verdict(&msgs), Some(Outcome::Success(Some(p))) if p == "out/a.mp4"));
    assert!(matches!(j.stage, Stage::Over));
}

#[test]
fn a_target_that_is_there_is_put_to_the_user() {
    let mut j = job(PAGE, "ask");
    let (_, action) = j.step(Event::Begin, false);
    let probe = command(action);
    assert!(probe.contains("--simulate"), "{probe}");
    let lines = vec!["out/a.mp4".to_string()];
    let (_, action) = j.step(Event::Printed(lines), false);
    assert_eq!(looked_for(action), "out/a.mp4");
    let (_, action) = j.step(Event::Looked(true), false);
    assert_eq!(looked_for(action), "out/a (1).mp4");
    let (_, action) = j.step(Event::Looked(true), false);
    assert_eq!(looked_for(action), "out/a (2).mp4");
    let (_, action) = j.step(Event::Looked(false), false);
    match action {
        Action::AskUser(q) => {
            assert_eq!((q.target.as_str(), q.suggestion.as_str()), ("out/a.mp4", "a (2).mp4"));
        }
        other => panic!("{other:?}"),
    }
    let answer = ConflictDecision::Rename("out/50% b.mp4".to_string());
    let (_, action) = j.step(Event::Answered(Some(answer)), false);
    let cmd = command(action);
    assert!(cmd.contains("-o out/50%% b.%(ext)s"), "{cmd}");
    // The run named no file: the one that was asked for is looked for.
    let (msgs, action) = j.step(run(0, "", None), false);
    assert!(msgs.is_empty());
    assert_eq!(looked_for(action), "out/50% b");
    let (msgs, _) = j.step(Event::Looked(false), false);
    assert!(matches!(verdict(&msgs), Some(Outcome::Success(None))));
}

#[test]
fn the_rename_rule_takes_the_first_free_copy() {
    let mut j = job(PAGE, "rename");
    j.step(Event::Begin, false);
    j.step(Event::Printed(vec!["out/a.mp4".to_string()]), false);
    j.step(Event::Looked(true), false);
    let (msgs, action) = j.step(Event::Looked(false), false);
    assert!(command(action).contains("-o out/a (1).%(ext)s"));
    let line = tf(Lang::En, "dlw.exists_saving_as", &["a.mp4", "a (1).mp4"]);
    assert!(matches!(&msgs[0], UiMsg::Log(Task::Download, l) if *l == line));
}

#[test]
fn a_thousand_copies_do_not_end_the_search() {
    let mut j = job(PAGE, "rename");
    j.step(Event::Begin, false);
    j.step(Event::Printed(vec!["out/a.mp4".to_string()]), false);
    let mut action = j.step(Event::Looked(true), false).1;
    for n in 1..=1200 {
        assert_eq!(looked_for(action), format!("out/a ({n}).mp4"));
        action = j.step(Event::Looked(true), false).1;
    }
    assert_eq!(looked_for(action), "out/a (1201).mp4");
    let (_, action) = j.step(Event::Looked(false), false);
    assert!(command(action).contains("-o out/a (1201).%(ext)s"));
}

#[test]
fn an_unknown_or_free_target_is_just_downloaded() {
    let mut j = job(PAGE, "ask");
    j.step(Event::Begin, false);
    let (msgs, action) = j.step(Event::Printed(vec![]), false);
    assert!(matches!(&msgs[0], UiMsg::Log(_, l) if *l == t(Lang::En, "dlw.no_target_name")));
    assert!(command(action).contains("%(title)"));
    let mut j = job(PAGE, "ask");
    j.step(Event::Begin, false);
    j.step(Event::Printed(vec!["out/a.mp4".to_string()]), false);
    let (_, action) = j.step(Event::Looked(false), false);
    assert!(matches!(action, Action::Run(_)));
}

#[test]
fn the_user_can_overwrite_or_skip() {
    for (answer, force) in [
        (Some(ConflictDecision::Overwrite), true),
        (Some(ConflictDecision::Skip), false),
        (None, false),
    ] {
        let mut j = job(PAGE, "ask");
        j.step(Event::Begin, false);
        j.step(Event::Printed(vec!["out/a.mp4".to_string()]), false);
        j.step(Event::Looked(true), false);
        j.step(Event::Looked(false), false);
        let (msgs, action) = j.step(Event::Answered(answer), false);
        if force {
            assert!(command(action).contains("--force-overwrites"));
        } else {
            assert!(matches!(action, Action::Finish));
            assert!(matches!(verdict(&msgs), Some(Outcome::Skipped)));
        }
    }
}

#[test]
fn a_rejected_run_is_repeated_with_other_clients() {
    let mut j = job(PAGE, "overwrite");
    let (_, action) = j.step(Event::Begin, false);
    assert!(command(action).contains("web_safari"));
    for k in 0..2 {
        let (msgs, action) = j.step(run(1, REJECTED, None), false);
        assert!(matches!(action, Action::Pause), "{k}");
        assert_eq!(msgs.len(), 2);
        let (_, action) = j.step(Event::Waited(true), false);
        let cmd = command(action);
        assert!(cmd.contains("android_vr") && cmd.contains("--continue"), "{cmd}");
    }
    let (msgs, action) = j.step(run(1, REJECTED, None), false);
    assert!(matches!(action, Action::Finish));
    assert!(matches!(verdict(&msgs), Some(Outcome::Failed)));
}

#[test]
fn stop_ends_a_job_at_every_turn() {
    let mut j = job(PAGE, "overwrite");
    j.step(Event::Begin, false);
    j.step(run(1, REJECTED, None), false);
    let (msgs, action) = j.step(Event::Waited(false), true);
    assert!(matches!(action, Action::Finish));
    assert!(matches!(verdict(&msgs), Some(Outcome::Cancelled)));
    let mut j = job(PAGE, "ask");
    j.step(Event::Begin, false);
    let (msgs, _) = j.step(Event::Printed(vec!["out/a.mp4".to_string()]), true);
    assert!(matches!(verdict(&msgs), Some(Outcome::Cancelled)));
}

#[test]
fn an_instagram_download_gets_a_neutral_name() {
    let mut j = job("https://www.instagram.com/reel/x", "ask");
    let (_, action) = j.step(Event::Begin, false);
    assert!(matches!(action, Action::ListFolder));
    let event = Event::Folder { names: vec!["Video-6.MP4".to_string()], draws: vec![5, 6], now: 0 };
    let (msgs, action) = j.step(event, false);
    let line = tf(Lang::En, "dlw.anon_name", &["video-7"]);
    assert!(matches!(&msgs[0], UiMsg::Log(_, l) if *l == line));
    assert!(command(action).contains("video-7.%(ext)s"));
}

#[test]
fn a_playlist_is_never_probed() {
    let mut j = job(PAGE, "ask");
    j.request.opts.playlist = true;
    let (_, action) = j.step(Event::Begin, false);
    assert!(command(action).contains("--yes-playlist"));
}

#[test]
fn a_run_that_cannot_start_ends_the_job_without_a_verdict() {
    let mut j = job(PAGE, "skip");
    j.step(Event::Begin, false);
    let (msgs, action) = j.step(Event::NotStarted(Some("gone".to_string())), false);
    assert!(matches!(action, Action::Finish));
    assert_eq!(msgs.len(), 2);
    assert!(verdict(&msgs).is_none());
    // Nothing is left to answer.
    let (msgs, action) = j.step(Event::Begin, false);
    assert!(msgs.is_empty() && matches!(action, Action::Finish));
}

#[test]
fn setup_tasks_always_free_the_tab() {
    let failed = setup_failed(SetupTask::Deno, "no", Lang::En);
    assert!(matches!(&failed[1], UiMsg::Toast(m, true) if *m == tf(Lang::En, "setup.deno_error", &["no"])));
    assert!(matches!(failed.last(), Some(UiMsg::SetupBusy(false))));
    let done = setup_done(SetupTask::Install, BinaryStatus::default(), Lang::En);
    assert!(matches!(&done[0], UiMsg::SetupLog(m) if *m == t(Lang::En, "setup.install_done")));
    assert!(matches!(done.last(), Some(UiMsg::SetupBusy(false))));
    assert_eq!(
        setup_started(SetupTask::Update, "nightly", Lang::En),
        tf(Lang::En, "setup.switch_channel", &["nightly"])
    );
    assert_eq!(
        setup_started(SetupTask::Update, "stable", Lang::En),
        t(Lang::En, "setup.updating_ytdlp_status")
    );
}
