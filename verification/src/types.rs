//! Shared message and state types that workers and the user interface exchange.

use crate::text::opt_text;
use crate::update::Release;
use vstd::prelude::*;

verus! {

#[derive(Clone, Copy, PartialEq, Eq, Structural, Debug)]
pub enum Task {
    Download,
    Convert,
}

/// How a worker run ended, as far as the user interface cares.
#[derive(Clone, Debug)]
pub enum Outcome {
    /// Finished and wrote (or already had) a file; carries its path when known.
    Success(Option<String>),
    /// Nothing was written because the user or the conflict rule said so.
    Skipped,
    Cancelled,
    Failed,
}

/// State of one entry in the download queue.
#[derive(Clone, Copy, PartialEq, Eq, Structural, Debug)]
pub enum QueueState {
    Pending,
    Running,
    Done,
    Failed,
    Skipped,
}

/// Whether an update check was triggered by the user or ran on start.
#[derive(Clone, Copy, PartialEq, Eq, Structural, Debug)]
pub enum CheckKind {
    Automatic,
    Manual,
}

/// How far a run is, as the progress bar shows it.
#[derive(Clone, Debug)]
pub enum Progress {
    /// No bar at all.
    Hidden,
    /// A bar at the percentage that this decimal number spells.
    Percent(String),
    /// A full bar.
    Full,
}

/// What ffprobe could tell about a file, for the summary of the Convert tab.
#[derive(Clone, Debug)]
pub struct MediaInfo {
    /// The file this describes - a late answer for a since-changed input is
    /// dropped rather than shown against the wrong file.
    pub path: String,
    /// The length in seconds, in the decimal notation ffprobe reported.
    pub duration: Option<String>,
    pub width: u32,
    pub height: u32,
    /// Numerator and denominator of the frame rate, as ffprobe reported them.
    pub fps: Option<(String, String)>,
    pub vcodec: String,
    pub acodec: String,
    pub size_bytes: u64,
    pub bit_rate: Option<u64>,
}

impl Default for MediaInfo {
    fn default() -> (r: Self)
        ensures
            r.path@ == Seq::<char>::empty(),
            r.duration is None,
            r.width == 0,
            r.height == 0,
            r.fps is None,
            r.vcodec@ == Seq::<char>::empty(),
            r.acodec@ == Seq::<char>::empty(),
            r.size_bytes == 0,
            r.bit_rate is None,
    {
        MediaInfo {
            path: String::new(),
            duration: None,
            width: 0,
            height: 0,
            fps: None,
            vcodec: String::new(),
            acodec: String::new(),
            size_bytes: 0,
            bit_rate: None,
        }
    }
}

/// The last probe of the external tools.
#[derive(Clone, Debug)]
pub struct BinaryStatus {
    pub ytdlp_ok: bool,
    pub ytdlp_version: String,
    pub ffmpeg_ok: bool,
    pub ffmpeg_version: String,
    pub deno_ok: bool,
    pub deno_version: String,
    pub hw_backend: String,
    pub impersonate_ok: bool,
    pub js_runtime: String,
}

impl Default for BinaryStatus {
    fn default() -> (r: Self)
        ensures
            !r.ytdlp_ok,
            r.ytdlp_version@ == Seq::<char>::empty(),
            !r.ffmpeg_ok,
            r.ffmpeg_version@ == Seq::<char>::empty(),
            !r.deno_ok,
            r.deno_version@ == Seq::<char>::empty(),
            r.hw_backend@ == Seq::<char>::empty(),
            !r.impersonate_ok,
            r.js_runtime@ == Seq::<char>::empty(),
    {
        BinaryStatus {
            ytdlp_ok: false,
            ytdlp_version: String::new(),
            ffmpeg_ok: false,
            ffmpeg_version: String::new(),
            deno_ok: false,
            deno_version: String::new(),
            hw_backend: String::new(),
            impersonate_ok: false,
            js_runtime: String::new(),
        }
    }
}

/// Options gathered from the Download tab, handed to the worker.
#[derive(Clone, Debug)]
pub struct DownloadOpts {
    pub impersonate: bool,
    pub impersonate_available: bool,
    pub sponsorblock: bool,
    pub embed: bool,
    pub subs: bool,
    pub subs_lang: String,
    pub cookiefile: String,
    pub potoken: bool,
    pub potoken_url: String,
    pub plugins_dir: String,
    pub conflict: String,
    /// Fetch every entry of a playlist/channel URL instead of just the video.
    pub playlist: bool,
    /// Optional `--playlist-items` range, already stripped to safe characters.
    pub playlist_items: String,
    /// Optional `--limit-rate` value ("2M"), empty for unlimited.
    pub rate_limit: String,
}

impl Default for DownloadOpts {
    fn default() -> (r: Self)
        ensures
            !r.impersonate,
            !r.impersonate_available,
            !r.sponsorblock,
            !r.embed,
            !r.subs,
            r.subs_lang@ == Seq::<char>::empty(),
            r.cookiefile@ == Seq::<char>::empty(),
            !r.potoken,
            r.potoken_url@ == Seq::<char>::empty(),
            r.plugins_dir@ == Seq::<char>::empty(),
            r.conflict@ == Seq::<char>::empty(),
            !r.playlist,
            r.playlist_items@ == Seq::<char>::empty(),
            r.rate_limit@ == Seq::<char>::empty(),
    {
        DownloadOpts {
            impersonate: false,
            impersonate_available: false,
            sponsorblock: false,
            embed: false,
            subs: false,
            subs_lang: String::new(),
            cookiefile: String::new(),
            potoken: false,
            potoken_url: String::new(),
            plugins_dir: String::new(),
            conflict: String::new(),
            playlist: false,
            playlist_items: String::new(),
            rate_limit: String::new(),
        }
    }
}

/// A request from the download worker to resolve a file collision.
#[derive(Clone, Debug)]
pub struct ConflictReq {
    pub target: String,
    pub suggestion: String,
}

/// The answer to a `ConflictReq`.
#[derive(Clone, Debug)]
pub enum ConflictDecision {
    Overwrite,
    Rename(String),
    Skip,
}

/// Messages sent from worker threads to the user interface.
#[derive(Debug)]
pub enum UiMsg {
    Log(Task, String),
    Progress(Task, Progress),
    Status(Task, String),
    Busy(Task, bool),
    /// A passing note, and whether it reports an error.
    Toast(String, bool),
    SetupLog(String),
    /// Guards the Setup tab while an install/update thread is running.
    SetupBusy(bool),
    Binary(BinaryStatus),
    Conflict(ConflictReq),
    /// Outcome of an update check: Ok(Some) = newer release, Ok(None) = current.
    UpdateCheck(Result<Option<Release>, String>, CheckKind),
    /// Progress line shown while an update downloads.
    UpdateStatus(String),
    /// Outcome of installing an update; Ok carries the new version string.
    UpdateInstalled(Result<String, String>),
    /// How a worker ended. Always sent before the matching `Busy(_, false)`,
    /// so the queue driver sees the outcome before it advances.
    Finished(Task, Outcome),
    /// Result of an ffprobe run against the Convert tab's input file.
    MediaInfo(Option<MediaInfo>),
}

// ---------------- what a worker says ----------------

/// What a `Progress` shows.
pub enum Bar {
    Hidden,
    Percent(Seq<char>),
    Full,
}

/// How a run ended.
pub enum End {
    Success(Option<Seq<char>>),
    Skipped,
    Cancelled,
    Failed,
}

/// What a message of a worker says.
pub enum Said {
    Log(Task, Seq<char>),
    Progress(Task, Bar),
    Status(Task, Seq<char>),
    Toast(Seq<char>, bool),
    Finished(Task, End),
    /// A message that is no report of a run.
    Other,
}

pub open spec fn bar_of(p: Progress) -> Bar {
    match p {
        Progress::Hidden => Bar::Hidden,
        Progress::Percent(s) => Bar::Percent(s@),
        Progress::Full => Bar::Full,
    }
}

pub open spec fn end_of(o: Outcome) -> End {
    match o {
        Outcome::Success(p) => End::Success(opt_text(p)),
        Outcome::Skipped => End::Skipped,
        Outcome::Cancelled => End::Cancelled,
        Outcome::Failed => End::Failed,
    }
}

pub open spec fn said_by(m: UiMsg) -> Said {
    match m {
        UiMsg::Log(t, s) => Said::Log(t, s@),
        UiMsg::Progress(t, p) => Said::Progress(t, bar_of(p)),
        UiMsg::Status(t, s) => Said::Status(t, s@),
        UiMsg::Toast(s, e) => Said::Toast(s@, e),
        UiMsg::Finished(t, o) => Said::Finished(t, end_of(o)),
        _ => Said::Other,
    }
}

/// What a list of messages says, in order.
pub open spec fn said(v: Seq<UiMsg>) -> Seq<Said> {
    v.map_values(|m: UiMsg| said_by(m))
}

/// Appends a message.
pub fn say(out: &mut Vec<UiMsg>, m: UiMsg)
    ensures
        said(final(out)@) == said(old(out)@).push(said_by(m)),
{
    out.push(m);
    assert(said(out@) =~= said(old(out)@).push(said_by(m)));
}

/// Appends a log line.
pub fn say_log(out: &mut Vec<UiMsg>, task: Task, text: &str)
    ensures
        said(final(out)@) == said(old(out)@).push(Said::Log(task, text@)),
{
    say(out, UiMsg::Log(task, text.to_owned()));
}

/// Appends a status text.
pub fn say_status(out: &mut Vec<UiMsg>, task: Task, text: &str)
    ensures
        said(final(out)@) == said(old(out)@).push(Said::Status(task, text@)),
{
    say(out, UiMsg::Status(task, text.to_owned()));
}

/// Appends a passing note.
pub fn say_toast(out: &mut Vec<UiMsg>, text: &str, error: bool)
    ensures
        said(final(out)@) == said(old(out)@).push(Said::Toast(text@, error)),
{
    say(out, UiMsg::Toast(text.to_owned(), error));
}

/// What is said is what was sent: the same words to the same tab, and the end of
/// a run with its file.
pub proof fn what_is_said_was_sent(t: Task, s: String, flag: bool, path: Option<String>)
    ensures
        said_by(UiMsg::Log(t, s)) == Said::Log(t, s@),
        said_by(UiMsg::Status(t, s)) == Said::Status(t, s@),
        said_by(UiMsg::Toast(s, flag)) == Said::Toast(s@, flag),
        said_by(UiMsg::Progress(t, Progress::Percent(s))) == Said::Progress(t, Bar::Percent(s@)),
        said_by(UiMsg::Progress(t, Progress::Hidden)) == Said::Progress(t, Bar::Hidden),
        said_by(UiMsg::Progress(t, Progress::Full)) == Said::Progress(t, Bar::Full),
        said_by(UiMsg::Finished(t, Outcome::Success(path))) == Said::Finished(
            t,
            End::Success(opt_text(path)),
        ),
        said_by(UiMsg::Finished(t, Outcome::Skipped)) == Said::Finished(t, End::Skipped),
        said_by(UiMsg::Finished(t, Outcome::Cancelled)) == Said::Finished(t, End::Cancelled),
        said_by(UiMsg::Finished(t, Outcome::Failed)) == Said::Finished(t, End::Failed),
{
}

} // verus!
