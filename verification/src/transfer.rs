//! Download runs: what their output tells, when one is tried again, what
//! becomes of a file that is already there, and how a download ends.

use crate::consts::YTDLP_INSTAGRAM_FIX;
use crate::convert::{file_name, is_file_name, is_file_name_in};
use crate::download::{
    audio_quality, has_cookies, is_audio_quality, next_retry, retry_after, Failure, Retry,
    MAX_ATTEMPTS,
};
use crate::i18n::{filled, phrase, t, tf, Lang};
use crate::number::{dec, i64_text, int_dec, u64_text};
use crate::path::{path_of, route_of};
use crate::pattern::{first_group, group_of, NUMBER, PERCENTAGE};
use crate::text::{
    any_within, contains, contains_any, cut_first, cut_last, is_at, is_space, last_at,
    lemma_first_is, lemma_first_piece, lemma_one_piece, lemma_pieces_nonempty, lemma_trimmed_end,
    lemma_trimmed_start, lemma_trimmed_stays, lowered, one_of, opt_text, pieces, push_text,
    rsplit_once, same, spaces, split, split_once, starts_with, strip_prefix, strip_suffix, strs,
    texts, to_lowercase, trim, trim_end_of, trim_start_of, trimmed, trimmed_end, trimmed_start,
    trimming_takes_white_space_only, within,
};
use crate::types::{
    said, say, say_log, say_status, say_toast, Bar, ConflictDecision, ConflictReq, DownloadOpts,
    End, Outcome, Progress, Said, Task, UiMsg,
};
use crate::util::{
    is_number, is_older, is_template_for, number_text, outtmpl_for, template_for, version,
    ytdlp_older_than,
};
use vstd::prelude::*;

verus! {

// ---------------- the file a run says it wrote ----------------

/// A text without white space and quotation marks around it.
pub open spec fn unquoted(s: Seq<char>) -> Seq<char> {
    trimmed(trimmed_end(trimmed_start(trimmed(s), one_of(seq!['"'])), one_of(seq!['"'])))
}

fn unquote(s: &str) -> (r: String)
    ensures
        r@ == unquoted(s@),
{
    let quote = ['"'];
    assert(quote@ =~= seq!['"']);
    let inner = trim(s);
    let front = trim_start_of(inner.as_str(), &quote);
    let both = trim_end_of(front.as_str(), &quote);
    trim(both.as_str())
}

/// The path that the text behind the tag of a log line names, if it is one of
/// those that announce a file.
pub open spec fn announced(after: Seq<char>) -> Option<Seq<char>> {
    if "Destination: "@.is_prefix_of(after) {
        Some(unquoted(after.skip("Destination: "@.len() as int)))
    } else if "Merging formats into "@.is_prefix_of(after) {
        Some(unquoted(after.skip("Merging formats into "@.len() as int)))
    } else if "Moving file "@.is_prefix_of(after) {
        match cut_last(after.skip("Moving file "@.len() as int), " to "@) {
            Some((_, to)) => Some(unquoted(to)),
            None => None,
        }
    } else if " has already been downloaded"@.is_suffix_of(after) {
        Some(unquoted(after.take(after.len() - " has already been downloaded"@.len())))
    } else {
        None
    }
}

fn announced_path(after: &str) -> (r: Option<String>)
    ensures
        opt_text(r) == announced(after@),
{
    if let Some(p) = strip_prefix(after, "Destination: ") {
        Some(unquote(p.as_str()))
    } else if let Some(p) = strip_prefix(after, "Merging formats into ") {
        Some(unquote(p.as_str()))
    } else if let Some(p) = strip_prefix(after, "Moving file ") {
        // "Moving file \"from\" to \"to\"" - only the destination matters.
        match rsplit_once(p.as_str(), " to ") {
            Some((_, to)) => Some(unquote(to.as_str())),
            None => None,
        }
    } else if let Some(p) = strip_suffix(after, " has already been downloaded") {
        Some(unquote(p.as_str()))
    } else {
        None
    }
}

/// The file that a log line names: behind a tag in brackets, and not empty.
pub open spec fn written_path(line: Seq<char>) -> Option<Seq<char>> {
    let l = trimmed(line);
    if !"["@.is_prefix_of(l) {
        None
    } else {
        match cut_first(l.skip(1), "] "@) {
            Some((_, after)) => match announced(after) {
                Some(p) => if p.len() > 0 {
                    Some(p)
                } else {
                    None
                },
                None => None,
            },
            None => None,
        }
    }
}

/// Pulls the file yt-dlp says it wrote out of one of its own log lines.
///
/// yt-dlp announces every destination it opens, so the *last* line of a run
/// that names one is the file the user ends up with: the per-stream downloads
/// come first, the merge or the audio extraction that replaces them last.
pub fn output_path_from_line(line: &str) -> (r: Option<String>)
    ensures
        opt_text(r) == written_path(line@),
{
    proof {
        reveal_strlit("[");
    }
    let l = trim(line);
    match strip_prefix(l.as_str(), "[") {
        Some(rest) => match split_once(rest.as_str(), "] ") {
            Some((_tag, after)) => match announced_path(after.as_str()) {
                Some(p) => if p.as_str().is_empty() {
                    None
                } else {
                    Some(p)
                },
                None => None,
            },
            None => None,
        },
        None => None,
    }
}

// ---------------- what one run prints ----------------

/// The mark of a progress line.
pub const PROGRESS_MARK: &'static str = "download:";

/// What a run has told so far.
#[derive(Debug)]
pub struct RunState {
    /// The progress line that was shown last.
    pub last_progress: String,
    /// The run found the file in place and left it alone.
    pub skipped_existing: bool,
    /// The file the run says it wrote, when one of its lines named it.
    pub produced: Option<String>,
}

impl Default for RunState {
    fn default() -> (r: Self)
        ensures
            r.last_progress@ == Seq::<char>::empty(),
            !r.skipped_existing,
            r.produced is None,
    {
        RunState { last_progress: String::new(), skipped_existing: false, produced: None }
    }
}

/// What a line of a run gives rise to: the line in lowercase, where the
/// diagnosis is to read it, and the messages to send.
#[derive(Debug)]
pub struct LineEffect {
    pub collect: Option<String>,
    pub msgs: Vec<UiMsg>,
}

/// The progress that a progress line tells: its first number as a percentage,
/// and the speed and the remaining time beside it; `group` is that number.
pub open spec fn progress_said(
    parts: Seq<Seq<char>>,
    group: Option<Seq<char>>,
    lang: Lang,
) -> Seq<Said> {
    match group {
        Some(g) => if is_number(g) {
            seq![
                Said::Progress(Task::Download, Bar::Percent(g)),
                Said::Status(
                    Task::Download,
                    filled(
                        phrase(lang, "dlw.progress_status"@),
                        seq![g, trimmed(parts[1]), trimmed(parts[2])],
                    ),
                ),
            ]
        } else {
            seq![]
        },
        None => seq![],
    }
}

/// The progress that another line tells, where it holds a percentage; `group`
/// is the number in it.
pub open spec fn percentage_said(group: Option<Seq<char>>, lang: Lang) -> Seq<Said> {
    match group {
        Some(g) => if is_number(g) {
            seq![
                Said::Progress(Task::Download, Bar::Percent(g)),
                Said::Status(
                    Task::Download,
                    filled(phrase(lang, "dlw.downloading_pct"@), seq![g]),
                ),
            ]
        } else {
            seq![]
        },
        None => seq![],
    }
}

/// The parts of a progress line: percentage, speed and remaining time.
pub open spec fn progress_parts(line: Seq<char>) -> Seq<Seq<char>> {
    pieces(line.skip(PROGRESS_MARK@.len() as int), "|"@)
}

fn say_percent(out: &mut Vec<UiMsg>, group: &str)
    ensures
        said(final(out)@) == said(old(out)@).push(
            Said::Progress(Task::Download, Bar::Percent(group@)),
        ),
{
    say(out, UiMsg::Progress(Task::Download, Progress::Percent(group.to_owned())));
}

/// Reports a progress line; `group` is the first number in its first part.
pub fn report_progress(
    out: &mut Vec<UiMsg>,
    parts: &Vec<String>,
    group: &Option<String>,
    lang: Lang,
)
    requires
        parts@.len() >= 3,
    ensures
        said(final(out)@) == said(old(out)@) + progress_said(
            texts(parts@),
            opt_text(*group),
            lang,
        ),
{
    if let Some(g) = group {
        if number_text(g.as_str()) {
            let speed = trim(parts[1].as_str());
            let eta = trim(parts[2].as_str());
            say_percent(out, g.as_str());
            let args = [g.as_str(), speed.as_str(), eta.as_str()];
            let text = tf(lang, "dlw.progress_status", &args);
            assert(strs(args@) =~= seq![g@, trimmed(parts@[1]@), trimmed(parts@[2]@)]);
            assert(texts(parts@)[1] == parts@[1]@ && texts(parts@)[2] == parts@[2]@);
            say_status(out, Task::Download, text.as_str());
        }
    }
    assert(said(out@) =~= said(old(out)@) + progress_said(texts(parts@), opt_text(*group), lang));
}

/// Reports a percentage in another line; `group` is the number in it.
pub fn report_percentage(out: &mut Vec<UiMsg>, group: &Option<String>, lang: Lang)
    ensures
        said(final(out)@) == said(old(out)@) + percentage_said(opt_text(*group), lang),
{
    if let Some(g) = group {
        if number_text(g.as_str()) {
            say_percent(out, g.as_str());
            let args = [g.as_str()];
            let text = tf(lang, "dlw.downloading_pct", &args);
            assert(strs(args@) =~= seq![g@]);
            say_status(out, Task::Download, text.as_str());
        }
    }
    assert(said(out@) =~= said(old(out)@) + percentage_said(opt_text(*group), lang));
}

/// `line` tells progress in the form that was asked for.
pub open spec fn is_progress_line(line: Seq<char>) -> bool {
    PROGRESS_MARK@.is_prefix_of(line)
}

/// The line is worth showing: it is no repetition of the last progress.
pub open spec fn is_news(state: RunState, line: Seq<char>) -> bool {
    !(is_progress_line(line) && line == state.last_progress@)
}

/// The pattern and the text in which the percentage of a line is looked for.
pub open spec fn percent_source(line: Seq<char>) -> (Seq<char>, Seq<char>) {
    if is_progress_line(line) {
        (NUMBER@, trimmed(progress_parts(line)[0]))
    } else {
        (PERCENTAGE@, line)
    }
}

/// What a line says; `group` is the number in it.
pub open spec fn line_said(
    state: RunState,
    line: Seq<char>,
    group: Option<Seq<char>>,
    lang: Lang,
) -> Seq<Said> {
    (if is_news(state, line) {
        seq![Said::Log(Task::Download, line)]
    } else {
        seq![]
    }) + (if !is_progress_line(line) {
        percentage_said(group, lang)
    } else if progress_parts(line).len() >= 3 {
        progress_said(progress_parts(line), group, lang)
    } else {
        seq![]
    })
}

/// What a run has told once a line has come; `lower` is the line in lowercase.
pub open spec fn is_told(
    after: RunState,
    before: RunState,
    line: Seq<char>,
    lower: Seq<char>,
) -> bool {
    &&& after.last_progress@ == (if is_progress_line(line) {
        line
    } else {
        before.last_progress@
    })
    &&& after.skipped_existing == (before.skipped_existing || within(
        lower,
        "has already been downloaded"@,
    ))
    &&& opt_text(after.produced) == (if !is_progress_line(line) && written_path(line) is Some {
        written_path(line)
    } else {
        opt_text(before.produced)
    })
}

/// Takes in a line of a run that is not empty; `lower` is the line in lowercase
/// and `group` the number in it.
pub fn take_line(
    state: &mut RunState,
    line: &str,
    lower: &str,
    group: &Option<String>,
    lang: Lang,
) -> (r: LineEffect)
    ensures
        is_told(*final(state), *old(state), line@, lower@),
        opt_text(r.collect) == (if is_news(*old(state), line@) {
            Some(lower@)
        } else {
            None
        }),
        said(r.msgs@) == line_said(*old(state), line@, opt_text(*group), lang),
{
    proof {
        reveal_strlit("|");
    }
    let mut msgs: Vec<UiMsg> = Vec::new();
    let mut collect: Option<String> = None;
    let progress = starts_with(line, PROGRESS_MARK);
    let news = !(progress && same(line, state.last_progress.as_str()));
    if news {
        say_log(&mut msgs, Task::Download, line);
        collect = Some(lower.to_owned());
    }
    let ghost first = said(msgs@);
    assert(first =~= (if news {
        seq![Said::Log(Task::Download, line@)]
    } else {
        seq![]
    }));
    if contains(lower, "has already been downloaded") {
        state.skipped_existing = true;
    }
    if progress {
        state.last_progress = line.to_owned();
        if let Some(rest) = strip_prefix(line, PROGRESS_MARK) {
            let parts = split(rest.as_str(), "|");
            assert(texts(parts@) == progress_parts(line@));
            if parts.len() >= 3 {
                report_progress(&mut msgs, &parts, group, lang);
            }
        }
    } else {
        if let Some(p) = output_path_from_line(line) {
            state.produced = Some(p);
        }
        report_percentage(&mut msgs, group, lang);
    }
    assert(said(msgs@) =~= line_said(*old(state), line@, opt_text(*group), lang));
    LineEffect { collect, msgs }
}

/// Takes in a line that a run wrote on standard output.
pub fn on_stdout_line(state: &mut RunState, line: &str, lang: Lang) -> (r: LineEffect)
    ensures
        ({
            let l = trimmed(line@);
            if l.len() == 0 {
                *final(state) == *old(state) && r.collect is None && r.msgs@.len() == 0
            } else {
                let (pattern, text) = percent_source(l);
                &&& is_told(*final(state), *old(state), l, lowered(l))
                &&& opt_text(r.collect) == (if is_news(*old(state), l) {
                    Some(lowered(l))
                } else {
                    None
                })
                &&& said(r.msgs@) == line_said(*old(state), l, group_of(pattern, text), lang)
            }
        }),
{
    let l = trim(line);
    if l.as_str().is_empty() {
        return LineEffect { collect: None, msgs: Vec::new() };
    }
    let lower = to_lowercase(l.as_str());
    let group = match strip_prefix(l.as_str(), PROGRESS_MARK) {
        Some(rest) => {
            proof {
                reveal_strlit("|");
                lemma_pieces_nonempty(rest@, "|"@);
            }
            let parts = split(rest.as_str(), "|");
            assert(texts(parts@)[0] == parts@[0]@);
            first_group(NUMBER, trim(parts[0].as_str()).as_str())
        },
        None => first_group(PERCENTAGE, l.as_str()),
    };
    take_line(state, l.as_str(), lower.as_str(), &group, lang)
}

/// Takes in a line that a run wrote on standard error. yt-dlp reports its
/// errors there, so the diagnosis reads them too.
pub fn on_stderr_line(line: &str) -> (r: LineEffect)
    ensures
        ({
            let l = trimmed(line@);
            if l.len() == 0 {
                r.collect is None && r.msgs@.len() == 0
            } else {
                &&& opt_text(r.collect) == Some(lowered(l))
                &&& said(r.msgs@) == seq![Said::Log(Task::Download, l)]
            }
        }),
{
    let l = trim(line);
    let mut msgs: Vec<UiMsg> = Vec::new();
    if l.as_str().is_empty() {
        return LineEffect { collect: None, msgs };
    }
    say_log(&mut msgs, Task::Download, l.as_str());
    assert(said(msgs@) =~= seq![Said::Log(Task::Download, l@)]);
    LineEffect { collect: Some(to_lowercase(l.as_str())), msgs }
}

// ---------------- why a run failed ----------------

/// What a log says of a transfer that the server turned down.
pub const REJECTED: &'static str = "http error 403";

/// What a log says of a transfer that broke off, whatever the reason.
pub const BROKEN_OFF: &'static str = "unable to download video data";

/// What a log says of a connection or a server that gave out.
pub const FLAKY: [&'static str; 5] = [
    "http error 500",
    "http error 502",
    "http error 503",
    "connection reset",
    "the read operation timed out",
];

/// The kind of a failure, by the log of the run in lowercase. A transfer that
/// broke off for no reason that the log gives counts as turned down.
pub open spec fn failure_of(logs: Seq<char>) -> Option<Failure> {
    if within(logs, REJECTED@) {
        Some(Failure::Rejected)
    } else if any_within(logs, FLAKY@) {
        Some(Failure::Flaky)
    } else if within(logs, BROKEN_OFF@) {
        Some(Failure::Rejected)
    } else {
        None
    }
}

/// Classifies a failed run, or `None` if a second attempt would be pointless.
///
/// The 403 is the interesting one: YouTube accepts the first few megabytes and
/// then rejects the rest of the transfer, which yt-dlp's own `--retries` cannot
/// fix because they reuse the very URL that just died. It is told apart from
/// the plain network hiccups because only it says something about the formats
/// that were picked.
pub fn failure_kind(logs: &str) -> (r: Option<Failure>)
    ensures
        r == failure_of(logs@),
{
    if contains(logs, REJECTED) {
        Some(Failure::Rejected)
    } else if contains_any(logs, &FLAKY) {
        Some(Failure::Flaky)
    } else if contains(logs, BROKEN_OFF) {
        Some(Failure::Rejected)
    } else {
        None
    }
}

/// What follows a run.
#[derive(Debug)]
pub enum AfterRun {
    /// The download is over, for better or worse.
    Finish,
    /// Another run follows, after these messages and a pause.
    Again(Retry, Vec<UiMsg>),
}

/// Another run follows the `attempt`-th one, counted from zero: it failed in a
/// way that another can get past, and there is one left that nobody stopped.
pub open spec fn tries_again(attempt: nat, code: int, logs: Seq<char>, cancelled: bool) -> bool {
    failure_of(logs) is Some && code != 0 && attempt + 1 < MAX_ATTEMPTS && !cancelled
}

/// What is said before another run.
pub open spec fn retry_said(attempt: nat, kind: Failure, lang: Lang) -> Seq<Said> {
    seq![
        Said::Log(
            Task::Download,
            filled(
                phrase(
                    lang,
                    if kind == Failure::Rejected {
                        "dlw.retrying"@
                    } else {
                        "dlw.retrying_net"@
                    },
                ),
                seq![dec(attempt + 1), dec((MAX_ATTEMPTS - 1) as nat)],
            ),
        ),
        Said::Status(Task::Download, phrase(lang, "dlw.retry_status"@)),
    ]
}

/// Decides what follows the `attempt`-th run, counted from zero. The media URLs
/// YouTube hands out can stop working part-way through the transfer; a fresh
/// run gets fresh ones, so a stalled 403 is retried instead of being reported
/// as a dead end.
pub fn after_run(
    attempt: u64,
    retry: Retry,
    code: i32,
    logs: &str,
    cancelled: bool,
    lang: Lang,
) -> (r: AfterRun)
    ensures
        match r {
            AfterRun::Again(next, msgs) => {
                &&& tries_again(attempt as nat, code as int, logs@, cancelled)
                &&& next == retry_after(retry, failure_of(logs@)->0)
                &&& said(msgs@) == retry_said(attempt as nat, failure_of(logs@)->0, lang)
            },
            AfterRun::Finish => !tries_again(attempt as nat, code as int, logs@, cancelled),
        },
{
    if code == 0 || cancelled || attempt >= MAX_ATTEMPTS - 1 {
        return AfterRun::Finish;
    }
    match failure_kind(logs) {
        Some(kind) => {
            let key: &'static str = match kind {
                Failure::Rejected => "dlw.retrying",
                Failure::Flaky => "dlw.retrying_net",
            };
            let n = u64_text(attempt + 1);
            let m = u64_text(MAX_ATTEMPTS - 1);
            let args = [n.as_str(), m.as_str()];
            let text = tf(lang, key, &args);
            assert(strs(args@) =~= seq![
                dec((attempt + 1) as nat),
                dec((MAX_ATTEMPTS - 1) as nat),
            ]);
            let mut msgs: Vec<UiMsg> = Vec::new();
            say_log(&mut msgs, Task::Download, text.as_str());
            say_status(&mut msgs, Task::Download, t(lang, "dlw.retry_status"));
            assert(said(msgs@) =~= retry_said(attempt as nat, kind, lang));
            AfterRun::Again(next_retry(retry, kind), msgs)
        },
        None => AfterRun::Finish,
    }
}

// ---------------- before the first run ----------------

/// What is known of the tools a download is run with.
#[derive(Debug)]
pub struct Tools {
    /// The name of the JS runtime, empty where there is none.
    pub js_runtime: String,
    pub ytdlp_version: String,
}

/// What a YouTube URL is warned of; `lower` is the URL in lowercase.
pub open spec fn youtube_hints(
    lower: Seq<char>,
    quality: Seq<char>,
    cookies: bool,
    opts: DownloadOpts,
    js: Seq<char>,
    lang: Lang,
) -> Seq<Seq<char>> {
    if (within(lower, "youtube.com"@) || within(lower, "youtu.be"@)) && !is_audio_quality(
        quality,
    ) {
        if js.len() == 0 {
            seq![phrase(lang, "dlw.warn_nojs"@)]
        } else if !cookies && !opts.potoken {
            seq![phrase(lang, "dlw.note_nocookies"@)]
        } else {
            seq![]
        }
    } else {
        seq![]
    }
}

/// What an Instagram URL is warned of; `old` says whether yt-dlp is too old for
/// it.
pub open spec fn instagram_hints(
    lower: Seq<char>,
    cookies: bool,
    opts: DownloadOpts,
    old: bool,
    installed: Seq<char>,
    lang: Lang,
) -> Seq<Seq<char>> {
    if within(lower, "instagram.com"@) {
        (if old {
            seq![filled(phrase(lang, "dlw.warn_ig_old"@), seq![installed])]
        } else {
            seq![]
        }) + (if !cookies {
            seq![phrase(lang, "dlw.note_ig_cookies"@)]
        } else {
            seq![]
        }) + (if !opts.impersonate_available {
            seq![phrase(lang, "dlw.warn_ig_impersonate"@)]
        } else {
            seq![]
        })
    } else {
        seq![]
    }
}

/// The warnings before a download of the URL that is `lower` in lowercase;
/// `old` says whether yt-dlp is too old for Instagram.
pub fn hints_for(
    lower: &str,
    quality: &str,
    cookies: &Option<String>,
    opts: &DownloadOpts,
    tools: &Tools,
    old: bool,
    lang: Lang,
) -> (r: Vec<String>)
    ensures
        texts(r@) == youtube_hints(
            lower@,
            quality@,
            has_cookies(opt_text(*cookies), *opts),
            *opts,
            tools.js_runtime@,
            lang,
        ) + instagram_hints(
            lower@,
            has_cookies(opt_text(*cookies), *opts),
            *opts,
            old,
            tools.ytdlp_version@,
            lang,
        ),
{
    let given = cookies.is_some() || !opts.cookiefile.as_str().is_empty();
    let mut out: Vec<String> = Vec::new();
    if (contains(lower, "youtube.com") || contains(lower, "youtu.be")) && !audio_quality(quality) {
        if tools.js_runtime.as_str().is_empty() {
            push_text(&mut out, t(lang, "dlw.warn_nojs"));
        } else if !given && !opts.potoken {
            push_text(&mut out, t(lang, "dlw.note_nocookies"));
        }
    }
    let ghost first = texts(out@);
    assert(first =~= youtube_hints(
        lower@,
        quality@,
        given,
        *opts,
        tools.js_runtime@,
        lang,
    ));
    if contains(lower, "instagram.com") {
        if old {
            let args = [tools.ytdlp_version.as_str()];
            let text = tf(lang, "dlw.warn_ig_old", &args);
            assert(strs(args@) =~= seq![tools.ytdlp_version@]);
            push_text(&mut out, text.as_str());
        }
        if !given {
            push_text(&mut out, t(lang, "dlw.note_ig_cookies"));
        }
        if !opts.impersonate_available {
            push_text(&mut out, t(lang, "dlw.warn_ig_impersonate"));
        }
    }
    assert(texts(out@) =~= first + instagram_hints(
        lower@,
        given,
        *opts,
        old,
        tools.ytdlp_version@,
        lang,
    ));
    out
}

/// The warnings before a download.
pub fn preflight_hints(
    url: &str,
    quality: &str,
    cookies: &Option<String>,
    opts: &DownloadOpts,
    tools: &Tools,
    lang: Lang,
) -> (r: Vec<String>)
    ensures
        texts(r@) == youtube_hints(
            lowered(url@),
            quality@,
            has_cookies(opt_text(*cookies), *opts),
            *opts,
            tools.js_runtime@,
            lang,
        ) + instagram_hints(
            lowered(url@),
            has_cookies(opt_text(*cookies), *opts),
            *opts,
            is_older(version(tools.ytdlp_version@), version(YTDLP_INSTAGRAM_FIX@)),
            tools.ytdlp_version@,
            lang,
        ),
{
    let lower = to_lowercase(url);
    let old = ytdlp_older_than(tools.ytdlp_version.as_str(), YTDLP_INSTAGRAM_FIX);
    hints_for(lower.as_str(), quality, cookies, opts, tools, old, lang)
}

// ---------------- a file that is already there ----------------

/// What a download is to write, once that is settled.
#[derive(Debug)]
pub struct Plan {
    /// Output template in place of the default one.
    pub outtmpl: Option<String>,
    pub force_overwrite: bool,
    /// Nothing is to be downloaded after all.
    pub cancelled: bool,
    /// A line for the log.
    pub log: Option<String>,
}

/// `p` goes ahead with what it was asked for, and logs `log`.
pub open spec fn is_plain_plan(p: Plan, force: bool, log: Option<Seq<char>>) -> bool {
    p.outtmpl is None && p.force_overwrite == force && !p.cancelled && opt_text(p.log) == log
}

/// `p` downloads nothing.
pub open spec fn is_no_plan(p: Plan) -> bool {
    p.outtmpl is None && !p.force_overwrite && p.cancelled && p.log is None
}

fn plain_plan(force_overwrite: bool, log: Option<String>) -> (r: Plan)
    ensures
        is_plain_plan(r, force_overwrite, opt_text(log)),
{
    Plan { outtmpl: None, force_overwrite, cancelled: false, log }
}

fn no_plan() -> (r: Plan)
    ensures
        is_no_plan(r),
{
    Plan { outtmpl: None, force_overwrite: false, cancelled: true, log: None }
}

/// What to do about the target of a download.
#[derive(Debug)]
pub enum TargetStep {
    /// The plan is settled.
    Settled(Plan),
    /// Ask yt-dlp for the target.
    Probe,
    /// Find a free name beside the target and save under that.
    Rename,
    /// Find a free name beside the target and ask the user.
    Ask,
}

/// The rule for files that exist decides by itself, or the target has to be
/// known.
pub fn target_rule(conflict: &str) -> (r: TargetStep)
    ensures
        match r {
            TargetStep::Settled(p) => {
                ||| conflict@ == "overwrite"@ && is_plain_plan(p, true, None)
                ||| conflict@ != "overwrite"@ && conflict@ == "skip"@ && is_plain_plan(
                    p,
                    false,
                    None,
                )
            },
            TargetStep::Probe => conflict@ != "overwrite"@ && conflict@ != "skip"@,
            _ => false,
        },
{
    if same(conflict, "overwrite") {
        TargetStep::Settled(plain_plan(true, None))
    } else if same(conflict, "skip") {
        TargetStep::Settled(plain_plan(false, None))
    } else {
        TargetStep::Probe
    }
}

/// `text` is the wording of `key` with the file name of each path put in.
pub open spec fn names_file(text: Seq<char>, lang: Lang, key: Seq<char>, path: Seq<char>) -> bool {
    exists|n: Seq<char>|
        #[trigger] is_file_name(n, path) && text == filled(phrase(lang, key), seq![n])
}

/// `text` is the wording of `key` with the file names of two paths put in.
pub open spec fn names_files(
    text: Seq<char>,
    lang: Lang,
    key: Seq<char>,
    a: Seq<char>,
    b: Seq<char>,
) -> bool {
    exists|m: Seq<char>, n: Seq<char>|
        #[trigger] is_file_name(m, a) && #[trigger] is_file_name(n, b) && text == filled(
            phrase(lang, key),
            seq![m, n],
        )
}

fn name_at(path: &str) -> (r: String)
    ensures
        is_file_name(r@, path@),
{
    let p = path_of(path);
    let r = file_name(&p);
    assert(is_file_name_in(r@, path@, route_of(p).windows));
    r
}

fn template_at(path: &str) -> (r: String)
    ensures
        is_template_for(r@, path@),
{
    let p = path_of(path);
    let r = outtmpl_for(&p);
    assert(r@ == template_for(path@, route_of(p).windows));
    r
}

fn file_line(lang: Lang, key: &'static str, path: &str) -> (r: String)
    ensures
        names_file(r@, lang, key@, path@),
{
    let n = name_at(path);
    let args = [n.as_str()];
    let r = tf(lang, key, &args);
    assert(strs(args@) =~= seq![n@]);
    assert(is_file_name(n@, path@));
    r
}

/// What to do once the target is known, or is not: `exists` tells whether a
/// file is there already.
pub fn after_probe(
    conflict: &str,
    target: &Option<String>,
    exists: bool,
    cancelled: bool,
    lang: Lang,
) -> (r: TargetStep)
    ensures
        match r {
            TargetStep::Settled(p) => {
                ||| cancelled && is_no_plan(p)
                ||| !cancelled && target is None && is_plain_plan(
                    p,
                    false,
                    Some(phrase(lang, "dlw.no_target_name"@)),
                )
                ||| !cancelled && target is Some && !exists && p.log is Some && is_plain_plan(
                    p,
                    false,
                    Some(p.log->0@),
                ) && names_file(p.log->0@, lang, "dlw.target_file"@, target->0@)
            },
            TargetStep::Rename => !cancelled && target is Some && exists && conflict@ == "rename"@,
            TargetStep::Ask => !cancelled && target is Some && exists && conflict@ != "rename"@,
            TargetStep::Probe => false,
        },
{
    if cancelled {
        return TargetStep::Settled(no_plan());
    }
    match target {
        None => TargetStep::Settled(
            plain_plan(false, Some(t(lang, "dlw.no_target_name").to_owned())),
        ),
        Some(path) => {
            if !exists {
                let line = file_line(lang, "dlw.target_file", path.as_str());
                TargetStep::Settled(plain_plan(false, Some(line)))
            } else if same(conflict, "rename") {
                TargetStep::Rename
            } else {
                TargetStep::Ask
            }
        },
    }
}

/// The plan that saves under a free name beside the target.
pub fn renamed_plan(target: &str, free: &str, lang: Lang) -> (r: Plan)
    ensures
        !r.force_overwrite && !r.cancelled,
        r.outtmpl is Some && is_template_for(r.outtmpl->0@, free@),
        r.log is Some && names_files(r.log->0@, lang, "dlw.exists_saving_as"@, target@, free@),
{
    let m = name_at(target);
    let n = name_at(free);
    let args = [m.as_str(), n.as_str()];
    let line = tf(lang, "dlw.exists_saving_as", &args);
    assert(strs(args@) =~= seq![m@, n@]);
    assert(is_file_name(m@, target@) && is_file_name(n@, free@));
    Plan {
        outtmpl: Some(template_at(free)),
        force_overwrite: false,
        cancelled: false,
        log: Some(line),
    }
}

/// The question that is put to the user: the target, and a free name beside it.
pub fn conflict_question(target: &str, free: &str) -> (r: ConflictReq)
    ensures
        r.target@ == target@,
        is_file_name(r.suggestion@, free@),
{
    ConflictReq { target: target.to_owned(), suggestion: name_at(free) }
}

/// The plan that follows from the answer of the user; no answer is to skip.
pub fn decided_plan(answer: &Option<ConflictDecision>, target: &str, lang: Lang) -> (r: Plan)
    ensures
        match *answer {
            Some(ConflictDecision::Overwrite) => r.log is Some && is_plain_plan(
                r,
                true,
                Some(r.log->0@),
            ) && names_file(r.log->0@, lang, "dlw.overwriting"@, target@),
            Some(ConflictDecision::Rename(p)) => {
                &&& !r.force_overwrite && !r.cancelled
                &&& r.outtmpl is Some && is_template_for(r.outtmpl->0@, p@)
                &&& r.log is Some && names_file(r.log->0@, lang, "dlw.saving_as"@, p@)
            },
            Some(ConflictDecision::Skip) => is_no_plan(r),
            None => is_no_plan(r),
        },
{
    match answer {
        Some(ConflictDecision::Overwrite) => {
            let line = file_line(lang, "dlw.overwriting", target);
            plain_plan(true, Some(line))
        },
        Some(ConflictDecision::Rename(p)) => {
            let line = file_line(lang, "dlw.saving_as", p.as_str());
            Plan {
                outtmpl: Some(template_at(p.as_str())),
                force_overwrite: false,
                cancelled: false,
                log: Some(line),
            }
        },
        Some(ConflictDecision::Skip) => no_plan(),
        None => no_plan(),
    }
}

/// The plan of a download with a neutral name. A freshly drawn "video-1234" is
/// already known to be free, so the whole conflict dance - including a second
/// yt-dlp run just to learn the target name - is skipped and the download
/// starts right away.
pub fn anon_plan(tmpl: &str, stem: &str, lang: Lang) -> (r: Plan)
    ensures
        opt_text(r.outtmpl) == Some(tmpl@),
        !r.force_overwrite && !r.cancelled,
        opt_text(r.log) == Some(filled(phrase(lang, "dlw.anon_name"@), seq![stem@])),
{
    let args = [stem];
    let line = tf(lang, "dlw.anon_name", &args);
    assert(strs(args@) =~= seq![stem@]);
    Plan {
        outtmpl: Some(tmpl.to_owned()),
        force_overwrite: false,
        cancelled: false,
        log: Some(line),
    }
}

/// The plan of a playlist. It writes many files, so probing for "the" target
/// name would only ever describe its first entry. yt-dlp's own per-file
/// handling takes over instead.
pub fn playlist_plan(conflict: &str, lang: Lang) -> (r: Plan)
    ensures
        is_plain_plan(r, conflict@ == "overwrite"@, Some(phrase(lang, "dlw.playlist_mode"@))),
{
    plain_plan(same(conflict, "overwrite"), Some(t(lang, "dlw.playlist_mode").to_owned()))
}

// ---------------- how a download ends ----------------

/// What is said when nothing was downloaded: because it was stopped, or because
/// the file that is there is to be kept.
pub open spec fn not_started_said(stopped: bool, lang: Lang) -> Seq<Said> {
    if stopped {
        seq![
            Said::Progress(Task::Download, Bar::Hidden),
            Said::Status(Task::Download, phrase(lang, "status.cancelled"@)),
            Said::Log(Task::Download, phrase(lang, "dlw.cancelled_log"@)),
            Said::Finished(Task::Download, End::Cancelled),
        ]
    } else {
        seq![
            Said::Progress(Task::Download, Bar::Hidden),
            Said::Status(Task::Download, phrase(lang, "dlw.skipped_status"@)),
            Said::Log(Task::Download, phrase(lang, "dlw.skipped_log"@)),
            Said::Toast(phrase(lang, "dlw.skipped_toast"@), true),
            Said::Finished(Task::Download, End::Skipped),
        ]
    }
}

/// Reports a download that was not started.
pub fn report_not_started(stopped: bool, lang: Lang) -> (r: Vec<UiMsg>)
    ensures
        said(r@) == not_started_said(stopped, lang),
{
    let mut out: Vec<UiMsg> = Vec::new();
    say(&mut out, UiMsg::Progress(Task::Download, Progress::Hidden));
    if stopped {
        say_status(&mut out, Task::Download, t(lang, "status.cancelled"));
        say_log(&mut out, Task::Download, t(lang, "dlw.cancelled_log"));
        say(&mut out, UiMsg::Finished(Task::Download, Outcome::Cancelled));
    } else {
        say_status(&mut out, Task::Download, t(lang, "dlw.skipped_status"));
        say_log(&mut out, Task::Download, t(lang, "dlw.skipped_log"));
        say_toast(&mut out, t(lang, "dlw.skipped_toast"), true);
        say(&mut out, UiMsg::Finished(Task::Download, Outcome::Skipped));
    }
    assert(said(out@) =~= not_started_said(stopped, lang));
    out
}

/// The tip that a failed download ends with, by its log.
pub open spec fn tip_of(logs: Seq<char>, js: Seq<char>, lang: Lang) -> Option<Seq<char>> {
    if within(logs, "empty media response"@) {
        Some(filled(phrase(lang, "dlw.tip_instagram"@), seq![YTDLP_INSTAGRAM_FIX@]))
    } else if within(logs, "requested format is not available"@) || within(logs, "please sign in"@)
        || within(logs, "login required"@) {
        Some(phrase(lang, "dlw.tip_formats"@))
    } else if failure_of(logs) == Some(Failure::Rejected) {
        Some(phrase(lang, "dlw.tip_403"@))
    } else if js.len() == 0 {
        Some(phrase(lang, "dlw.tip_nojs"@))
    } else {
        None
    }
}

fn failure_tip(logs: &str, js: &str, lang: Lang) -> (r: Option<String>)
    ensures
        opt_text(r) == tip_of(logs@, js@, lang),
{
    if contains(logs, "empty media response") {
        let args = [YTDLP_INSTAGRAM_FIX];
        let text = tf(lang, "dlw.tip_instagram", &args);
        assert(strs(args@) =~= seq![YTDLP_INSTAGRAM_FIX@]);
        Some(text)
    } else if contains(logs, "requested format is not available") || contains(
        logs,
        "please sign in",
    ) || contains(logs, "login required") {
        Some(t(lang, "dlw.tip_formats").to_owned())
    } else {
        match failure_kind(logs) {
            Some(Failure::Rejected) => Some(t(lang, "dlw.tip_403").to_owned()),
            _ => if js.is_empty() {
                Some(t(lang, "dlw.tip_nojs").to_owned())
            } else {
                None
            },
        }
    }
}

/// What is said when a download has ended.
pub open spec fn ended_said(
    cancelled: bool,
    code: int,
    skipped_existing: bool,
    logs: Seq<char>,
    produced: Option<Seq<char>>,
    js: Seq<char>,
    lang: Lang,
) -> Seq<Said> {
    if cancelled {
        seq![
            Said::Status(Task::Download, phrase(lang, "status.cancelled"@)),
            Said::Log(Task::Download, phrase(lang, "dlw.cancelled_log"@)),
            Said::Finished(Task::Download, End::Cancelled),
        ]
    } else if code == 0 && skipped_existing {
        seq![
            Said::Progress(Task::Download, Bar::Hidden),
            Said::Status(Task::Download, phrase(lang, "dlw.nothing_status"@)),
            Said::Log(Task::Download, phrase(lang, "dlw.nothing_log"@)),
            Said::Log(Task::Download, phrase(lang, "dlw.nothing_tip"@)),
            Said::Toast(phrase(lang, "dlw.nothing_status"@), true),
            Said::Finished(Task::Download, End::Skipped),
        ]
    } else if code == 0 {
        seq![
            Said::Progress(Task::Download, Bar::Full),
            Said::Status(Task::Download, phrase(lang, "dlw.completed"@)),
            Said::Log(Task::Download, phrase(lang, "dlw.success_log"@)),
            Said::Toast(phrase(lang, "dlw.success_toast"@), false),
            Said::Finished(Task::Download, End::Success(produced)),
        ]
    } else {
        seq![
            Said::Status(Task::Download, phrase(lang, "dlw.failed"@)),
            Said::Log(
                Task::Download,
                filled(phrase(lang, "dlw.failed_log"@), seq![int_dec(code)]),
            ),
        ] + (match tip_of(logs, js, lang) {
            Some(tip) => seq![Said::Log(Task::Download, tip)],
            None => seq![],
        }) + seq![
            Said::Toast(phrase(lang, "dlw.failed"@), true),
            Said::Finished(Task::Download, End::Failed),
        ]
    }
}

/// Reports how a download has ended.
pub fn report_ended(
    cancelled: bool,
    code: i32,
    skipped_existing: bool,
    logs: &str,
    produced: &Option<String>,
    js_runtime: &str,
    lang: Lang,
) -> (r: Vec<UiMsg>)
    ensures
        said(r@) == ended_said(
            cancelled,
            code as int,
            skipped_existing,
            logs@,
            opt_text(*produced),
            js_runtime@,
            lang,
        ),
{
    let mut out: Vec<UiMsg> = Vec::new();
    if cancelled {
        say_status(&mut out, Task::Download, t(lang, "status.cancelled"));
        say_log(&mut out, Task::Download, t(lang, "dlw.cancelled_log"));
        say(&mut out, UiMsg::Finished(Task::Download, Outcome::Cancelled));
    } else if code == 0 && skipped_existing {
        say(&mut out, UiMsg::Progress(Task::Download, Progress::Hidden));
        say_status(&mut out, Task::Download, t(lang, "dlw.nothing_status"));
        say_log(&mut out, Task::Download, t(lang, "dlw.nothing_log"));
        say_log(&mut out, Task::Download, t(lang, "dlw.nothing_tip"));
        say_toast(&mut out, t(lang, "dlw.nothing_status"), true);
        say(&mut out, UiMsg::Finished(Task::Download, Outcome::Skipped));
    } else if code == 0 {
        let path = match produced {
            Some(p) => Some(p.clone()),
            None => None,
        };
        say(&mut out, UiMsg::Progress(Task::Download, Progress::Full));
        say_status(&mut out, Task::Download, t(lang, "dlw.completed"));
        say_log(&mut out, Task::Download, t(lang, "dlw.success_log"));
        say_toast(&mut out, t(lang, "dlw.success_toast"), false);
        say(&mut out, UiMsg::Finished(Task::Download, Outcome::Success(path)));
    } else {
        let c = i64_text(code as i64);
        let args = [c.as_str()];
        let text = tf(lang, "dlw.failed_log", &args);
        assert(strs(args@) =~= seq![int_dec(code as int)]);
        say_status(&mut out, Task::Download, t(lang, "dlw.failed"));
        say_log(&mut out, Task::Download, text.as_str());
        if let Some(tip) = failure_tip(logs, js_runtime, lang) {
            say_log(&mut out, Task::Download, tip.as_str());
        }
        say_toast(&mut out, t(lang, "dlw.failed"), true);
        say(&mut out, UiMsg::Finished(Task::Download, Outcome::Failed));
    }
    assert(said(out@) =~= ended_said(
        cancelled,
        code as int,
        skipped_existing,
        logs@,
        opt_text(*produced),
        js_runtime@,
        lang,
    ));
    out
}

/// What is said when a run could not be started.
pub fn report_spawn_error(error: Option<&str>, lang: Lang) -> (r: Vec<UiMsg>)
    ensures
        said(r@) == (match error {
            Some(e) => seq![
                Said::Log(Task::Download, filled(phrase(lang, "common.error"@), seq![e@])),
                Said::Status(Task::Download, phrase(lang, "dlw.failed"@)),
            ],
            None => seq![Said::Status(Task::Download, phrase(lang, "dlw.failed"@))],
        }),
{
    let mut out: Vec<UiMsg> = Vec::new();
    if let Some(e) = error {
        let args = [e];
        let text = tf(lang, "common.error", &args);
        assert(strs(args@) =~= seq![e@]);
        say_log(&mut out, Task::Download, text.as_str());
    }
    say_status(&mut out, Task::Download, t(lang, "dlw.failed"));
    out
}

// ---------------- laws ----------------

/// A server or a connection that gives out is no rejection: only the rejection
/// itself outweighs it, whatever else the log says of the transfer.
pub proof fn a_hiccup_is_no_rejection(logs: Seq<char>)
    requires
        any_within(logs, FLAKY@),
    ensures
        failure_of(logs) == Some(Failure::Rejected) <==> within(logs, REJECTED@),
        failure_of(logs) == Some(Failure::Flaky) <==> !within(logs, REJECTED@),
{
}

/// A download is tried three times at most: no run follows the last one, nor
/// one that was stopped, nor one that went well.
pub proof fn attempts_are_limited(attempt: nat, code: int, logs: Seq<char>, cancelled: bool)
    ensures
        attempt + 1 >= MAX_ATTEMPTS ==> !tries_again(attempt, code, logs, cancelled),
        cancelled ==> !tries_again(attempt, code, logs, cancelled),
        code == 0 ==> !tries_again(attempt, code, logs, cancelled),
{
}

/// A message tells how the run ended.
pub open spec fn is_verdict(m: Said) -> bool {
    m is Finished
}

/// Every download that ends is told to be over exactly once, and last.
pub proof fn every_end_is_told_once(
    cancelled: bool,
    code: int,
    skipped_existing: bool,
    logs: Seq<char>,
    produced: Option<Seq<char>>,
    js: Seq<char>,
    lang: Lang,
)
    ensures
        ({
            let e = ended_said(cancelled, code, skipped_existing, logs, produced, js, lang);
            &&& e.len() > 0
            &&& is_verdict(e.last())
            &&& forall|i: int| 0 <= i < e.len() - 1 ==> !is_verdict(#[trigger] e[i])
        }),
        ({
            let e = not_started_said(cancelled, lang);
            &&& e.len() > 0
            &&& is_verdict(e.last())
            &&& forall|i: int| 0 <= i < e.len() - 1 ==> !is_verdict(#[trigger] e[i])
        }),
{
}

/// A download counts as a success exactly when yt-dlp says so, nobody stopped
/// it, and it did not find the file in place; stopping it always wins.
pub proof fn success_needs_a_clean_run(
    cancelled: bool,
    code: int,
    skipped_existing: bool,
    logs: Seq<char>,
    produced: Option<Seq<char>>,
    js: Seq<char>,
    lang: Lang,
)
    ensures
        ({
            let e = ended_said(cancelled, code, skipped_existing, logs, produced, js, lang);
            &&& e.last() == Said::Finished(Task::Download, End::Success(produced)) <==> !cancelled
                && code == 0 && !skipped_existing
            &&& cancelled ==> e.last() == Said::Finished(Task::Download, End::Cancelled)
        }),
{
}

/// A line that repeats the last progress is not shown again, and every line
/// that is no progress is.
pub proof fn only_progress_is_left_out(state: RunState, line: Seq<char>)
    ensures
        !is_progress_line(line) ==> is_news(state, line),
        is_progress_line(line) && line == state.last_progress@ ==> !is_news(state, line),
{
}

/// A line of a run names a file: it is no progress, and it announces one.
pub open spec fn names_a_file(line: Seq<char>) -> bool {
    !"download:"@.is_prefix_of(line) && written_path(line) is Some
}

/// Each state follows from the one before it and a line.
pub open spec fn is_course(
    states: Seq<RunState>,
    lines: Seq<Seq<char>>,
    lowers: Seq<Seq<char>>,
) -> bool {
    &&& states.len() == lines.len() + 1
    &&& lowers.len() == lines.len()
    &&& forall|i: int|
        0 <= i < lines.len() ==> is_told(
            #[trigger] states[i + 1],
            states[i],
            lines[i],
            lowers[i],
        )
}

proof fn lemma_kept(
    states: Seq<RunState>,
    lines: Seq<Seq<char>>,
    lowers: Seq<Seq<char>>,
    from: int,
    to: int,
)
    requires
        is_course(states, lines, lowers),
        0 <= from <= to <= lines.len(),
        forall|j: int| from <= j < to ==> !names_a_file(#[trigger] lines[j]),
    ensures
        opt_text(states[to].produced) == opt_text(states[from].produced),
    decreases to - from,
{
    if from < to {
        lemma_kept(states, lines, lowers, from, to - 1);
        let k = to - 1;
        assert(is_told(states[k + 1], states[k], lines[k], lowers[k]));
        assert(!names_a_file(lines[k]));
    }
}

/// The file that a run ends up with is the one that the last of its lines to
/// name a file names: whatever was named before gives way to it. A run that
/// names none has none.
pub proof fn the_last_named_file_counts(
    states: Seq<RunState>,
    lines: Seq<Seq<char>>,
    lowers: Seq<Seq<char>>,
    k: int,
)
    requires
        is_course(states, lines, lowers),
        states[0].produced is None,
        -1 <= k < lines.len(),
        k >= 0 ==> names_a_file(lines[k]),
        forall|j: int| k < j < lines.len() ==> !names_a_file(#[trigger] lines[j]),
    ensures
        k >= 0 ==> opt_text(states.last().produced) == written_path(lines[k]),
        k < 0 ==> states.last().produced is None,
{
    lemma_kept(states, lines, lowers, k + 1, lines.len() as int);
    if k >= 0 {
        assert(is_told(states[k + 1], states[k], lines[k], lowers[k]));
    }
}

/// A run has found the file in place exactly when one of its lines says so, and
/// nothing that comes later takes that back.
pub proof fn a_file_in_place_is_not_forgotten(
    states: Seq<RunState>,
    lines: Seq<Seq<char>>,
    lowers: Seq<Seq<char>>,
)
    requires
        is_course(states, lines, lowers),
        !states[0].skipped_existing,
    ensures
        states.last().skipped_existing <==> exists|i: int|
            0 <= i < lowers.len() && within(#[trigger] lowers[i], "has already been downloaded"@),
    decreases lines.len(),
{
    if lines.len() > 0 {
        let n = lines.len() - 1;
        let ss = states.drop_last();
        let ls = lines.drop_last();
        let ws = lowers.drop_last();
        assert forall|i: int| 0 <= i < ls.len() implies is_told(
            #[trigger] ss[i + 1],
            ss[i],
            ls[i],
            ws[i],
        ) by {
            assert(is_told(states[i + 1], states[i], lines[i], lowers[i]));
        }
        a_file_in_place_is_not_forgotten(ss, ls, ws);
        assert(is_told(states[n + 1], states[n], lines[n], lowers[n]));
        assert(ss.last() == states[n]);
        if exists|i: int|
            0 <= i < ws.len() && within(#[trigger] ws[i], "has already been downloaded"@) {
            let i = choose|i: int|
                0 <= i < ws.len() && within(#[trigger] ws[i], "has already been downloaded"@);
            assert(lowers[i] == ws[i]);
        }
        if exists|i: int|
            0 <= i < lowers.len() && within(
                #[trigger] lowers[i],
                "has already been downloaded"@,
            ) {
            let i = choose|i: int|
                0 <= i < lowers.len() && within(
                    #[trigger] lowers[i],
                    "has already been downloaded"@,
                );
            if i < n {
                assert(ws[i] == lowers[i]);
            }
        }
    }
}

/// The path is told as it is: no white space and no quotation mark stands at
/// either end.
pub open spec fn is_told_plainly(p: Seq<char>) -> bool {
    p.len() > 0 && !is_space(p[0]) && !is_space(p.last()) && p[0] != '"' && p.last() != '"'
}

proof fn lemma_unquoted(p: Seq<char>)
    requires
        is_told_plainly(p),
    ensures
        unquoted(p) == p,
        unquoted(seq!['"'] + p + seq!['"']) == p,
{
    let quote = one_of(seq!['"']);
    assert(seq!['"'][0] == '"');
    assert(quote('"') && !quote(p[0]) && !quote(p.last()));
    lemma_trimmed_stays(p);
    assert(trimmed_start(p, quote) == p);
    assert(trimmed_end(p, quote) == p);
    let q = seq!['"'] + p + seq!['"'];
    let half = p + seq!['"'];
    lemma_trimmed_stays(q);
    assert(q.skip(1) =~= half);
    assert(half[0] == p[0]);
    assert(trimmed_start(half, quote) == half);
    assert(trimmed_start(q, quote) == half);
    assert(half.drop_last() =~= p);
    assert(trimmed_end(half, quote) == trimmed_end(p, quote));
}

/// What stands behind the tag of a line is what the line announces.
proof fn lemma_tagged(tag: Seq<char>, after: Seq<char>)
    requires
        !tag.contains(']'),
        after.len() > 0,
        !is_space(after.last()),
        announced(after) is Some,
        announced(after)->0.len() > 0,
    ensures
        written_path(seq!['['] + tag + seq![']', ' '] + after) == announced(after),
{
    reveal_strlit("[");
    reveal_strlit("] ");
    let line = seq!['['] + tag + seq![']', ' '] + after;
    let rest = tag + seq![']', ' '] + after;
    let n = tag.len() as int;
    lemma_trimmed_stays(line);
    assert(line.subrange(0, 1) =~= "["@);
    assert(line.skip(1) =~= rest);
    assert("] "@ =~= seq![']', ' ']);
    assert(rest.subrange(n, n + 2) =~= "] "@);
    assert forall|j: int| 0 <= j < n implies !is_at(rest, "] "@, j) by {
        if is_at(rest, "] "@, j) {
            assert(rest.subrange(j, j + 2)[0] == ']');
            assert(tag[j] == ']');
        }
    }
    lemma_first_is(rest, "] "@, n);
    assert(rest.skip(n + 2) =~= after);
}

/// A line that announces where a stream goes, what the streams are merged into
/// or which file is there already names that file, with quotation marks around
/// it or without.
pub proof fn an_announced_file_is_read_back(tag: Seq<char>, p: Seq<char>)
    requires
        !tag.contains(']'),
        is_told_plainly(p),
    ensures
        ({
            let head = seq!['['] + tag + seq![']', ' '];
            let quoted = seq!['"'] + p + seq!['"'];
            &&& written_path(head + ("Destination: "@ + p)) == Some(p)
            &&& written_path(head + ("Merging formats into "@ + quoted)) == Some(p)
        }),
{
    reveal_strlit("Destination: ");
    reveal_strlit("Merging formats into ");
    let quoted = seq!['"'] + p + seq!['"'];
    let a = "Destination: "@ + p;
    let b = "Merging formats into "@ + quoted;
    lemma_unquoted(p);
    assert(a.subrange(0, 13) =~= "Destination: "@);
    assert(a.skip(13) =~= p);
    assert(a.last() == p.last());
    assert(announced(a) == Some(p));
    lemma_tagged(tag, a);
    assert(b.subrange(0, 21) =~= "Merging formats into "@);
    assert(b.skip(21) =~= quoted);
    assert(b[0] == 'M' && a[0] == 'D');
    if "Destination: "@.is_prefix_of(b) {
        assert(b.subrange(0, 13)[0] == 'D');
    }
    assert(b.last() == '"');
    assert(announced(b) == Some(p));
    lemma_tagged(tag, b);
}

/// A file that is moved is the one it was moved to.
pub proof fn a_moved_file_is_where_it_went(tag: Seq<char>, from: Seq<char>, p: Seq<char>)
    requires
        !tag.contains(']'),
        is_told_plainly(p),
        !p.contains(' '),
    ensures
        written_path(
            seq!['['] + tag + seq![']', ' '] + ("Moving file "@ + from + " to "@ + seq!['"'] + p
                + seq!['"']),
        ) == Some(p),
{
    reveal_strlit("Destination: ");
    reveal_strlit("Merging formats into ");
    reveal_strlit("Moving file ");
    reveal_strlit(" to ");
    let quoted = seq!['"'] + p + seq!['"'];
    let after = "Moving file "@ + from + " to "@ + seq!['"'] + p + seq!['"'];
    let rest = from + " to "@ + quoted;
    let n = from.len() as int;
    lemma_unquoted(p);
    assert(after.subrange(0, 12) =~= "Moving file "@);
    assert(after.skip(12) =~= rest);
    assert(after[1] == 'o' && after[0] == 'M');
    if "Destination: "@.is_prefix_of(after) {
        assert(after.subrange(0, 13)[0] == 'D');
    }
    if "Merging formats into "@.is_prefix_of(after) {
        assert(after.subrange(0, 21)[1] == 'e');
    }
    assert(rest.subrange(n, n + 4) =~= " to "@);
    assert forall|j: int| n < j <= rest.len() - 4 implies !is_at(rest, " to "@, j) by {
        if is_at(rest, " to "@, j) {
            let m = rest.subrange(j, j + 4);
            assert(m[0] == ' ' && m[1] == 't' && m[2] == 'o' && m[3] == ' ');
            assert(rest[j + 3] == ' ');
            if j + 3 >= n + 4 {
                let k = j + 3 - n - 4;
                assert(rest[j + 3] == quoted[k]);
                assert(0 < k < quoted.len() - 1 ==> p[k - 1] == ' ');
            } else {
                assert(rest[j] == " to "@[j - n]);
                assert(j == n + 3 ==> false);
            }
        }
    }
    lemma_last_is(rest, " to "@, n, rest.len() - 4);
    assert(rest.skip(n + 4) =~= quoted);
    assert(after.last() == '"');
    lemma_tagged(tag, after);
}

proof fn lemma_last_is(hay: Seq<char>, needle: Seq<char>, i: int, from: int)
    requires
        0 <= i <= from,
        is_at(hay, needle, i),
        forall|j: int| i < j <= from ==> !is_at(hay, needle, j),
    ensures
        last_at(hay, needle, from) == Some(i),
    decreases from - i,
{
    if i < from {
        lemma_last_is(hay, needle, i, from - 1);
    }
}

/// A line of progress tells the percentage, the speed and the remaining time, in
/// that order.
pub proof fn progress_falls_into_three_parts(a: Seq<char>, b: Seq<char>, c: Seq<char>)
    requires
        !a.contains('|') && !b.contains('|') && !c.contains('|'),
    ensures
        ({
            let line = "download:"@ + a + seq!['|'] + b + seq!['|'] + c;
            &&& is_progress_line(line)
            &&& progress_parts(line) == seq![a, b, c]
            &&& percent_source(line).1 == trimmed(a)
        }),
{
    reveal_strlit("download:");
    reveal_strlit("|");
    assert("|"@ =~= seq!['|']);
    let line = "download:"@ + a + seq!['|'] + b + seq!['|'] + c;
    assert(line.subrange(0, 9) =~= "download:"@);
    let rest = a.push('|') + (b.push('|') + c);
    assert(line.skip(9) =~= rest);
    lemma_first_piece(a, '|', b.push('|') + c);
    lemma_first_piece(b, '|', c);
    lemma_one_piece(c, '|');
    assert(progress_parts(line) =~= seq![a, b, c]);
}

/// What a progress line says: the number as the bar, and the number, the speed
/// and the remaining time in the status.
pub proof fn progress_is_shown_as_told(
    parts: Seq<Seq<char>>,
    g: Seq<char>,
    lang: Lang,
)
    requires
        parts.len() == 3,
        is_number(g),
    ensures
        ({
            let m = progress_said(parts, Some(g), lang);
            &&& m.contains(Said::Progress(Task::Download, Bar::Percent(g)))
            &&& m.contains(
                Said::Status(
                    Task::Download,
                    filled(
                        phrase(lang, "dlw.progress_status"@),
                        seq![g, trimmed(parts[1]), trimmed(parts[2])],
                    ),
                ),
            )
            &&& m.len() == 2
        }),
        ({
            let m = percentage_said(Some(g), lang);
            m.contains(Said::Progress(Task::Download, Bar::Percent(g)))
        }),
        progress_said(parts, None, lang).len() == 0,
        percentage_said(None, lang).len() == 0,
{
    let m = progress_said(parts, Some(g), lang);
    assert(m[0] == Said::Progress(Task::Download, Bar::Percent(g)));
    assert(m[1] is Status);
    let n = percentage_said(Some(g), lang);
    assert(n[0] == Said::Progress(Task::Download, Bar::Percent(g)));
}

/// What the log says tells the kind of a failure: a 403 is a rejection; a 500,
/// 502 or 503, a reset connection and a timeout are hiccups; a transfer that
/// broke off for no such reason is a rejection too, and nothing else is worth
/// another run.
pub proof fn the_log_tells_the_kind_of_a_failure(logs: Seq<char>)
    ensures
        ({
            let rejected = within(logs, "http error 403"@);
            let flaky = within(logs, "http error 500"@) || within(logs, "http error 502"@)
                || within(logs, "http error 503"@) || within(logs, "connection reset"@) || within(
                logs,
                "the read operation timed out"@,
            );
            let broken = within(logs, "unable to download video data"@);
            &&& failure_of(logs) == Some(Failure::Rejected) <==> rejected || (broken && !flaky)
            &&& failure_of(logs) == Some(Failure::Flaky) <==> flaky && !rejected
            &&& failure_of(logs) is None <==> !rejected && !flaky && !broken
        }),
{
    assert(FLAKY@[0]@ == "http error 500"@ && FLAKY@[1]@ == "http error 502"@);
    assert(FLAKY@[2]@ == "http error 503"@ && FLAKY@[3]@ == "connection reset"@);
    assert(FLAKY@[4]@ == "the read operation timed out"@);
    assert(FLAKY@.len() == 5);
}

/// A download is run three times at most, and a failure that another run can
/// get past is given the runs that are left.
pub proof fn three_runs_are_given(attempt: nat, code: int, logs: Seq<char>)
    requires
        code != 0,
        failure_of(logs) is Some,
    ensures
        attempt < 2 ==> tries_again(attempt, code, logs, false),
        attempt >= 2 ==> !tries_again(attempt, code, logs, false),
{
}

/// A failed run is told with its exit code, and ends as a failure; a run that
/// found the file in place ends as skipped, and one that was never started as
/// stopped or skipped.
pub proof fn every_end_has_its_verdict(
    code: int,
    logs: Seq<char>,
    produced: Option<Seq<char>>,
    js: Seq<char>,
    lang: Lang,
)
    ensures
        code != 0 ==> {
            let e = ended_said(false, code, false, logs, produced, js, lang);
            &&& e.last() == Said::Finished(Task::Download, End::Failed)
            &&& e.contains(
                Said::Log(
                    Task::Download,
                    filled(phrase(lang, "dlw.failed_log"@), seq![int_dec(code)]),
                ),
            )
            &&& e.contains(Said::Toast(phrase(lang, "dlw.failed"@), true))
        },
        code != 0 ==> ended_said(false, code, true, logs, produced, js, lang).last()
            == Said::Finished(Task::Download, End::Failed),
        ended_said(false, 0, true, logs, produced, js, lang).last() == Said::Finished(
            Task::Download,
            End::Skipped,
        ),
        not_started_said(true, lang).last() == Said::Finished(Task::Download, End::Cancelled),
        not_started_said(false, lang).last() == Said::Finished(Task::Download, End::Skipped),
{
    let e = ended_said(false, code, false, logs, produced, js, lang);
    if code != 0 {
        assert(e[1] is Log);
        assert(e[e.len() - 2] is Toast);
    }
}

/// What is known to go wrong with a site is told before the download: YouTube
/// without a runtime for its scripts or without cookies, Instagram with an old
/// yt-dlp, without cookies or without a browser to pass for.
pub proof fn known_trouble_is_told_before(
    lower: Seq<char>,
    q: Seq<char>,
    cookies: bool,
    opts: DownloadOpts,
    js: Seq<char>,
    old: bool,
    installed: Seq<char>,
    lang: Lang,
)
    ensures
        ({
            let youtube = within(lower, "youtube.com"@) || within(lower, "youtu.be"@);
            let h = youtube_hints(lower, q, cookies, opts, js, lang);
            &&& !youtube || is_audio_quality(q) ==> h.len() == 0
            &&& youtube && !is_audio_quality(q) && js.len() == 0 ==> h == seq![
                phrase(lang, "dlw.warn_nojs"@),
            ]
            &&& youtube && !is_audio_quality(q) && js.len() > 0 && !cookies && !opts.potoken ==> h
                == seq![phrase(lang, "dlw.note_nocookies"@)]
            &&& js.len() > 0 && (cookies || opts.potoken) ==> h.len() == 0
        }),
        ({
            let h = instagram_hints(lower, cookies, opts, old, installed, lang);
            let instagram = within(lower, "instagram.com"@);
            &&& !instagram ==> h.len() == 0
            &&& instagram && old ==> h.len() > 0 && h[0] == filled(
                phrase(lang, "dlw.warn_ig_old"@),
                seq![installed],
            )
            &&& instagram && !old && !cookies ==> h.len() > 0 && h[0] == phrase(
                lang,
                "dlw.note_ig_cookies"@,
            )
            &&& instagram && !opts.impersonate_available ==> h.len() > 0 && h.last() == phrase(
                lang,
                "dlw.warn_ig_impersonate"@,
            )
            &&& !old && cookies && opts.impersonate_available ==> h.len() == 0
        }),
{
}

/// The tip behind a failure fits what the log says of it.
pub proof fn a_tip_fits_the_failure(logs: Seq<char>, js: Seq<char>, lang: Lang)
    ensures
        ({
            let empty = within(logs, "empty media response"@);
            let login = within(logs, "requested format is not available"@) || within(
                logs,
                "please sign in"@,
            ) || within(logs, "login required"@);
            let rejected = failure_of(logs) == Some(Failure::Rejected);
            let t = tip_of(logs, js, lang);
            &&& empty ==> t == Some(
                filled(phrase(lang, "dlw.tip_instagram"@), seq!["2026.07.04"@]),
            )
            &&& !empty && login ==> t == Some(phrase(lang, "dlw.tip_formats"@))
            &&& !empty && !login && rejected ==> t == Some(phrase(lang, "dlw.tip_403"@))
            &&& !empty && !login && !rejected && js.len() == 0 ==> t == Some(
                phrase(lang, "dlw.tip_nojs"@),
            )
            &&& !empty && !login && !rejected && js.len() > 0 ==> t is None
        }),
{
}

/// A download ends as what it was, and says so in the status, the log and a
/// note.
pub proof fn a_download_ends_as_it_went(
    code: int,
    logs: Seq<char>,
    produced: Option<Seq<char>>,
    js: Seq<char>,
    lang: Lang,
    skipped: bool,
)
    requires
        code != 0,
    ensures
        ended_said(true, code, skipped, logs, produced, js, lang) == seq![
            Said::Status(Task::Download, phrase(lang, "status.cancelled"@)),
            Said::Log(Task::Download, phrase(lang, "dlw.cancelled_log"@)),
            Said::Finished(Task::Download, End::Cancelled),
        ],
        ended_said(false, 0, true, logs, produced, js, lang) == seq![
            Said::Progress(Task::Download, Bar::Hidden),
            Said::Status(Task::Download, phrase(lang, "dlw.nothing_status"@)),
            Said::Log(Task::Download, phrase(lang, "dlw.nothing_log"@)),
            Said::Log(Task::Download, phrase(lang, "dlw.nothing_tip"@)),
            Said::Toast(phrase(lang, "dlw.nothing_status"@), true),
            Said::Finished(Task::Download, End::Skipped),
        ],
        ended_said(false, 0, false, logs, produced, js, lang) == seq![
            Said::Progress(Task::Download, Bar::Full),
            Said::Status(Task::Download, phrase(lang, "dlw.completed"@)),
            Said::Log(Task::Download, phrase(lang, "dlw.success_log"@)),
            Said::Toast(phrase(lang, "dlw.success_toast"@), false),
            Said::Finished(Task::Download, End::Success(produced)),
        ],
        ({
            let m = ended_said(false, code, skipped, logs, produced, js, lang);
            &&& m[0] == Said::Status(Task::Download, phrase(lang, "dlw.failed"@))
            &&& m[1] == Said::Log(
                Task::Download,
                filled(phrase(lang, "dlw.failed_log"@), seq![int_dec(code)]),
            )
            &&& tip_of(logs, js, lang) is Some ==> m[2] == Said::Log(
                Task::Download,
                tip_of(logs, js, lang)->0,
            )
            &&& m[m.len() - 2] == Said::Toast(phrase(lang, "dlw.failed"@), true)
            &&& m[m.len() - 1] == Said::Finished(Task::Download, End::Failed)
        }),
        not_started_said(true, lang) == seq![
            Said::Progress(Task::Download, Bar::Hidden),
            Said::Status(Task::Download, phrase(lang, "status.cancelled"@)),
            Said::Log(Task::Download, phrase(lang, "dlw.cancelled_log"@)),
            Said::Finished(Task::Download, End::Cancelled),
        ],
        not_started_said(false, lang) == seq![
            Said::Progress(Task::Download, Bar::Hidden),
            Said::Status(Task::Download, phrase(lang, "dlw.skipped_status"@)),
            Said::Log(Task::Download, phrase(lang, "dlw.skipped_log"@)),
            Said::Toast(phrase(lang, "dlw.skipped_toast"@), true),
            Said::Finished(Task::Download, End::Skipped),
        ],
{
}

/// Another try is told with its number, out of the two that there are, and with
/// what went wrong.
pub proof fn another_try_is_told_with_its_number(attempt: nat, lang: Lang)
    ensures
        retry_said(attempt, Failure::Rejected, lang) == seq![
            Said::Log(
                Task::Download,
                filled(phrase(lang, "dlw.retrying"@), seq![dec(attempt + 1), dec(2)]),
            ),
            Said::Status(Task::Download, phrase(lang, "dlw.retry_status"@)),
        ],
        retry_said(attempt, Failure::Flaky, lang) == seq![
            Said::Log(
                Task::Download,
                filled(phrase(lang, "dlw.retrying_net"@), seq![dec(attempt + 1), dec(2)]),
            ),
            Said::Status(Task::Download, phrase(lang, "dlw.retry_status"@)),
        ],
{
}

/// A share that is told as a number moves the bar and the status to it.
pub proof fn a_share_moves_the_bar(g: Seq<char>, lang: Lang)
    ensures
        is_number(g) ==> percentage_said(Some(g), lang) == seq![
            Said::Progress(Task::Download, Bar::Percent(g)),
            Said::Status(Task::Download, filled(phrase(lang, "dlw.downloading_pct"@), seq![g])),
        ],
        !is_number(g) ==> percentage_said(Some(g), lang).len() == 0,
        percentage_said(None, lang).len() == 0,
{
}

/// A line is logged unless it repeats the last progress; what it tells of the
/// progress follows.
pub proof fn a_line_is_logged_unless_it_repeats(
    state: RunState,
    line: Seq<char>,
    group: Option<Seq<char>>,
    lang: Lang,
)
    ensures
        !"download:"@.is_prefix_of(line) ==> line_said(state, line, group, lang) == seq![
            Said::Log(Task::Download, line),
        ] + percentage_said(group, lang),
        line != state.last_progress@ ==> line_said(state, line, group, lang).len() > 0 && line_said(
            state,
            line,
            group,
            lang,
        )[0] == Said::Log(Task::Download, line),
        "download:"@.is_prefix_of(line) && line == state.last_progress@ ==> !line_said(
            state,
            line,
            group,
            lang,
        ).contains(Said::Log(Task::Download, line)),
{
}

/// A file that was there already is read off the line that says so.
pub proof fn a_file_that_was_there_is_read_back(tag: Seq<char>, p: Seq<char>)
    requires
        !tag.contains(']'),
        is_told_plainly(p),
        p[0] != 'D' && p[0] != 'M',
    ensures
        written_path(
            seq!['['] + tag + seq![']', ' '] + (p + " has already been downloaded"@),
        ) == Some(p),
{
    reveal_strlit(" has already been downloaded");
    reveal_strlit("Destination: ");
    reveal_strlit("Merging formats into ");
    reveal_strlit("Moving file ");
    let end = " has already been downloaded"@;
    let a = p + end;
    lemma_unquoted(p);
    assert(a[0] == p[0]);
    if "Destination: "@.is_prefix_of(a) {
        assert(a.subrange(0, "Destination: "@.len() as int)[0] == 'D');
    }
    if "Merging formats into "@.is_prefix_of(a) {
        assert(a.subrange(0, "Merging formats into "@.len() as int)[0] == 'M');
    }
    if "Moving file "@.is_prefix_of(a) {
        assert(a.subrange(0, "Moving file "@.len() as int)[0] == 'M');
    }
    assert(a.subrange(a.len() - end.len(), a.len() as int) =~= end);
    assert(end.is_suffix_of(a));
    assert(a.take(a.len() - end.len()) =~= p);
    assert(announced(a) == Some(p));
    assert(a.last() == 'd');
    lemma_tagged(tag, a);
}

/// A message that names a file names it by its file name.
pub proof fn a_message_names_the_file(
    text: Seq<char>,
    lang: Lang,
    key: Seq<char>,
    path: Seq<char>,
)
    requires
        names_file(text, lang, key, path),
    ensures
        exists|n: Seq<char>| #[trigger]
            is_file_name(n, path) && text == filled(phrase(lang, key), seq![n]),
{
}

/// White space around a line does not count.
pub proof fn white_space_around_a_line_does_not_count(line: Seq<char>)
    ensures
        written_path(line) == written_path(trimmed(line)),
{
    trimming_takes_white_space_only(line);
    lemma_trimmed_stays_all(line);
}

proof fn lemma_trimmed_stays_all(line: Seq<char>)
    ensures
        trimmed(trimmed(line)) == trimmed(line),
{
    let t = trimmed(line);
    lemma_trimmed_start(line, spaces());
    lemma_trimmed_end(trimmed_start(line, spaces()), spaces());
    let a = trimmed_start(line, spaces());
    if t.len() > 0 {
        assert(t[0] == a[0]);
        assert(!spaces()(a[0]));
        assert(!spaces()(t.last()));
        lemma_trimmed_stays(t);
    } else {
        lemma_trimmed_stays(t);
    }
}

/// A download that is dropped writes nothing and says nothing; one that goes
/// ahead under its own name overwrites only where it is told to.
pub proof fn a_dropped_download_writes_nothing(p: Plan, force: bool, log: Option<Seq<char>>)
    ensures
        is_no_plan(p) ==> p.cancelled && !p.force_overwrite && p.outtmpl is None && p.log is None,
        is_plain_plan(p, force, log) ==> !p.cancelled && (p.force_overwrite <==> force)
            && p.outtmpl is None && opt_text(p.log) == log,
{
}

} // verus!
