//! What the Setup tab says of the tools it installs and updates.

use crate::i18n::{filled, phrase, t, tf_one, with_argument, Lang};
use crate::text::same;
use crate::types::{BinaryStatus, UiMsg};
use vstd::prelude::*;

verus! {

/// Something that the Setup tab does.
#[derive(Clone, Copy, PartialEq, Eq, Structural, Debug)]
pub enum SetupTask {
    /// yt-dlp and FFmpeg.
    Install,
    /// yt-dlp alone, from a release channel.
    Update,
    Deno,
}

/// What is said when a task starts; `channel` is the release channel.
pub open spec fn start_said(task: SetupTask, channel: Seq<char>, lang: Lang) -> Seq<char> {
    match task {
        SetupTask::Install => phrase(lang, "setup.installing"@),
        SetupTask::Update => if channel == "stable"@ {
            phrase(lang, "setup.updating_ytdlp_status"@)
        } else {
            with_argument(lang, "setup.switch_channel"@, channel)
        },
        SetupTask::Deno => phrase(lang, "setup.dl_deno_status"@),
    }
}

/// What is said when a task starts.
pub fn setup_started(task: SetupTask, channel: &str, lang: Lang) -> (r: String)
    ensures
        r@ == start_said(task, channel@, lang),
{
    match task {
        SetupTask::Install => t(lang, "setup.installing").to_owned(),
        SetupTask::Update => if same(channel, "stable") {
            t(lang, "setup.updating_ytdlp_status").to_owned()
        } else {
            tf_one(lang, "setup.switch_channel", channel)
        },
        SetupTask::Deno => t(lang, "setup.dl_deno_status").to_owned(),
    }
}

/// The text key for a task that failed.
pub open spec fn failure_key(task: SetupTask) -> Seq<char> {
    match task {
        SetupTask::Install => "setup.install_error"@,
        SetupTask::Update => "setup.update_error"@,
        SetupTask::Deno => "setup.deno_error"@,
    }
}

/// `m` tells of a task that failed, and frees the tab.
pub open spec fn is_failure_report(
    m: Seq<UiMsg>,
    task: SetupTask,
    error: Seq<char>,
    lang: Lang,
) -> bool {
    &&& m.len() == 3
    &&& m[0] matches UiMsg::SetupLog(s) && s@ == with_argument(lang, "common.error"@, error)
    &&& m[1] matches UiMsg::Toast(s, e) && s@ == with_argument(lang, failure_key(task), error) && e
    &&& m[2] == UiMsg::SetupBusy(false)
}

/// Tells of a task that failed, and frees the tab.
pub fn setup_failed(task: SetupTask, error: &str, lang: Lang) -> (r: Vec<UiMsg>)
    ensures
        is_failure_report(r@, task, error@, lang),
{
    let key = match task {
        SetupTask::Install => "setup.install_error",
        SetupTask::Update => "setup.update_error",
        SetupTask::Deno => "setup.deno_error",
    };
    let mut out: Vec<UiMsg> = Vec::new();
    out.push(UiMsg::SetupLog(tf_one(lang, "common.error", error)));
    out.push(UiMsg::Toast(tf_one(lang, key, error), true));
    out.push(UiMsg::SetupBusy(false));
    out
}

/// The text keys for a task that is done, of its log line and of its note.
pub open spec fn done_keys(task: SetupTask) -> (Seq<char>, Seq<char>) {
    match task {
        SetupTask::Install => ("setup.install_done"@, "setup.install_ok_toast"@),
        SetupTask::Update => ("setup.ytdlp_updated"@, "setup.ytdlp_updated_toast"@),
        SetupTask::Deno => ("setup.deno_installed"@, "setup.deno_installed_toast"@),
    }
}

/// `m` tells of a task that is done, with what the tools now say of themselves,
/// and frees the tab.
pub open spec fn is_done_report(
    m: Seq<UiMsg>,
    task: SetupTask,
    tools: BinaryStatus,
    lang: Lang,
) -> bool {
    &&& m.len() == 4
    &&& m[0] matches UiMsg::SetupLog(s) && s@ == phrase(lang, done_keys(task).0)
    &&& m[1] == UiMsg::Binary(tools)
    &&& m[2] matches UiMsg::Toast(s, e) && s@ == phrase(lang, done_keys(task).1) && !e
    &&& m[3] == UiMsg::SetupBusy(false)
}

/// Tells of a task that is done, and frees the tab.
pub fn setup_done(task: SetupTask, tools: BinaryStatus, lang: Lang) -> (r: Vec<UiMsg>)
    ensures
        is_done_report(r@, task, tools, lang),
{
    let (line, note) = match task {
        SetupTask::Install => ("setup.install_done", "setup.install_ok_toast"),
        SetupTask::Update => ("setup.ytdlp_updated", "setup.ytdlp_updated_toast"),
        SetupTask::Deno => ("setup.deno_installed", "setup.deno_installed_toast"),
    };
    let mut out: Vec<UiMsg> = Vec::new();
    out.push(UiMsg::SetupLog(t(lang, line).to_owned()));
    out.push(UiMsg::Binary(tools));
    out.push(UiMsg::Toast(t(lang, note).to_owned(), false));
    out.push(UiMsg::SetupBusy(false));
    out
}

// ---------------- laws ----------------

/// Whatever comes of a task, the tab is free again at its end, and only then.
pub proof fn the_tab_is_freed_at_the_end(
    m: Seq<UiMsg>,
    task: SetupTask,
    error: Seq<char>,
    tools: BinaryStatus,
    lang: Lang,
)
    requires
        is_failure_report(m, task, error, lang) || is_done_report(m, task, tools, lang),
    ensures
        m.len() > 0,
        m.last() == UiMsg::SetupBusy(false),
        forall|i: int| 0 <= i < m.len() - 1 ==> !(#[trigger] m[i] is SetupBusy),
{
}

/// Each job of the setup is told by its own words: when it starts, when it fails
/// and when it is done.
pub proof fn each_job_has_its_own_words(
    m: Seq<UiMsg>,
    error: Seq<char>,
    tools: BinaryStatus,
    channel: Seq<char>,
    lang: Lang,
)
    ensures
        start_said(SetupTask::Install, channel, lang) == phrase(lang, "setup.installing"@),
        start_said(SetupTask::Deno, channel, lang) == phrase(lang, "setup.dl_deno_status"@),
        start_said(SetupTask::Update, "stable"@, lang) == phrase(
            lang,
            "setup.updating_ytdlp_status"@,
        ),
        channel != "stable"@ ==> start_said(SetupTask::Update, channel, lang) == filled(
            phrase(lang, "setup.switch_channel"@),
            seq![channel],
        ),
        is_failure_report(m, SetupTask::Install, error, lang) ==> m[1] is Toast && m[1]->Toast_0@
            == filled(phrase(lang, "setup.install_error"@), seq![error]) && m[1]->Toast_1,
        is_failure_report(m, SetupTask::Update, error, lang) ==> m[1] is Toast && m[1]->Toast_0@
            == filled(phrase(lang, "setup.update_error"@), seq![error]) && m[1]->Toast_1,
        is_failure_report(m, SetupTask::Deno, error, lang) ==> m[1] is Toast && m[1]->Toast_0@
            == filled(phrase(lang, "setup.deno_error"@), seq![error]) && m[1]->Toast_1,
        is_done_report(m, SetupTask::Install, tools, lang) ==> m[1] == UiMsg::Binary(tools) && m[2]
            is Toast && m[2]->Toast_0@ == phrase(lang, "setup.install_ok_toast"@) && !m[2]->Toast_1,
        is_done_report(m, SetupTask::Update, tools, lang) ==> m[1] == UiMsg::Binary(tools) && m[2]
            is Toast && m[2]->Toast_0@ == phrase(lang, "setup.ytdlp_updated_toast"@)
            && !m[2]->Toast_1,
        is_done_report(m, SetupTask::Deno, tools, lang) ==> m[1] == UiMsg::Binary(tools) && m[2]
            is Toast && m[2]->Toast_0@ == phrase(lang, "setup.deno_installed_toast"@)
            && !m[2]->Toast_1,
{
}

/// The log of the setup ends with what was done.
pub proof fn what_was_done_is_logged(m: Seq<UiMsg>, tools: BinaryStatus, lang: Lang)
    ensures
        is_done_report(m, SetupTask::Install, tools, lang) ==> m[0] is SetupLog
            && m[0]->SetupLog_0@ == phrase(lang, "setup.install_done"@),
        is_done_report(m, SetupTask::Update, tools, lang) ==> m[0] is SetupLog && m[0]->SetupLog_0@
            == phrase(lang, "setup.ytdlp_updated"@),
        is_done_report(m, SetupTask::Deno, tools, lang) ==> m[0] is SetupLog && m[0]->SetupLog_0@
            == phrase(lang, "setup.deno_installed"@),
{
}

} // verus!
