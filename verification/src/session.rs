//! The state of the window, and what the messages of the workers do to it.

use crate::consts::{codec_options, codecs_of, QUALITY_OPTIONS};
use crate::forms::{adopts_answer, ConvertForm, DownloadForm};
use crate::history::{
    finished_job, is_name_of, job_name, pushed, the_newest_run_is_kept, Entry, Kind,
};
use crate::i18n::{filled, phrase, t, with_argument, Lang};
use crate::log::{
    a_log_keeps_its_latest_lines, first_lines, latest, message_lines, opening_lines, push_log,
};
use crate::number::dec;
use crate::queue::{asked, is_ended, Queue, State, Step};
use crate::shell::{new_toast, Toast, TOAST_MILLIS};
use crate::text::{opt_str, opt_text, texts, trim, trimmed};
use crate::types::{BinaryStatus, ConflictReq, MediaInfo, Outcome, Progress, Task, UiMsg};
use crate::updater::{is_checked, UpdateUi, Updater};
use crate::view::{label_of, label_text, queue_summary};
use vstd::prelude::*;

verus! {

/// The live part of a tab that runs something.
#[derive(Debug)]
pub struct Pane {
    pub log: Vec<String>,
    pub status: String,
    pub bar: Progress,
}

/// The state of the window.
#[derive(Debug)]
pub struct Session {
    pub lang: Lang,
    /// What the tools said of themselves.
    pub tools: BinaryStatus,
    /// True while the background probe thread is running.
    pub probing: bool,
    pub toasts: Vec<Toast>,
    pub setup_log: String,
    pub setup_busy: bool,
    pub download: DownloadForm,
    pub queue: Queue,
    /// URL and preset of the running download, kept for the history entry it
    /// becomes.
    pub current_url: String,
    pub current_quality: String,
    pub dl: Pane,
    pub convert: ConvertForm,
    pub category: String,
    pub cv: Pane,
    pub cv_busy: bool,
    /// What ffprobe said about the current input, once it answered.
    pub info: Option<MediaInfo>,
    pub info_probing: bool,
    /// Input path the probe was started for - a late answer for a file the
    /// user has since replaced is dropped rather than shown against it.
    pub info_for: String,
    /// Output of the last finished conversion, for "open output folder".
    pub last_output: String,
    pub conflict: Option<ConflictReq>,
    pub conflict_name: String,
    pub conflict_error: Option<String>,
    pub history: Vec<Entry>,
    pub updater: Updater,
}

/// What a message asks of the program around the session.
#[derive(Debug)]
pub enum Effect {
    Nothing,
    /// The download worker ended, with this outcome; what comes next.
    Ended(Option<Outcome>, Step),
    /// A conversion wrote this file.
    Converted(String),
    /// The tools were asked; what they said is worth keeping.
    Probed,
}

/// `n` is a pane `p` with a message in its log.
pub open spec fn is_logged(n: Pane, p: Pane, message: Seq<char>) -> bool {
    &&& texts(n.log@) == latest(texts(p.log@) + message_lines(message))
    &&& n == (Pane { log: n.log, ..p })
}

/// `n` is `s` with one more short message.
pub open spec fn is_toasted(n: Seq<Toast>, s: Seq<Toast>, msg: Seq<char>, error: bool, now: u64) -> bool {
    &&& n.len() == s.len() + 1
    &&& n.drop_last() == s
    &&& n.last().msg@ == msg
    &&& n.last().error == error
    &&& n.last().until == (if now + TOAST_MILLIS > u64::MAX {
        u64::MAX as int
    } else {
        now + TOAST_MILLIS
    })
}

/// The tools with what they said, and impersonation off where they cannot.
pub open spec fn adopts_tools(n: Session, s: Session, tools: BinaryStatus) -> bool {
    n == (Session {
        tools,
        probing: false,
        download: DownloadForm {
            impersonate: s.download.impersonate && tools.impersonate_ok,
            ..s.download
        },
        ..s
    })
}

/// The answer of a probe is adopted where it is for the file chosen now.
pub open spec fn is_for_input(info: Option<MediaInfo>, s: Session) -> bool {
    let current = trimmed(s.convert.input@);
    (info is Some && info->0.path@ == current) || s.info_for@ == current
}

/// `n` is the session `s` after it heard a message, and `e` what is asked for.
/// `skipped` is the version that the user chose to skip.
pub open spec fn heard(
    n: Session,
    s: Session,
    msg: UiMsg,
    e: Effect,
    skipped: Seq<char>,
    now: u64,
) -> bool {
    match msg {
        UiMsg::Log(Task::Download, line) => {
            &&& is_logged(n.dl, s.dl, line@)
            &&& n == (Session { dl: n.dl, ..s })
            &&& e == Effect::Nothing
        },
        UiMsg::Log(Task::Convert, line) => {
            &&& is_logged(n.cv, s.cv, line@)
            &&& n == (Session { cv: n.cv, ..s })
            &&& e == Effect::Nothing
        },
        UiMsg::Progress(Task::Download, p) => {
            &&& n == (Session { dl: Pane { bar: p, ..s.dl }, ..s })
            &&& e == Effect::Nothing
        },
        UiMsg::Progress(Task::Convert, p) => {
            &&& n == (Session { cv: Pane { bar: p, ..s.cv }, ..s })
            &&& e == Effect::Nothing
        },
        UiMsg::Status(Task::Download, text) => {
            &&& n == (Session { dl: Pane { status: text, ..s.dl }, ..s })
            &&& e == Effect::Nothing
        },
        UiMsg::Status(Task::Convert, text) => {
            &&& n == (Session { cv: Pane { status: text, ..s.cv }, ..s })
            &&& e == Effect::Nothing
        },
        UiMsg::Busy(Task::Download, true) => {
            &&& n.queue.view() == (State { busy: true, ..s.queue.view() })
            &&& n == (Session { queue: n.queue, ..s })
            &&& e == Effect::Nothing
        },
        UiMsg::Busy(Task::Download, false) => {
            &&& e is Ended
            &&& is_ended(n.queue.view(), s.queue.view(), e->Ended_0, asked(e->Ended_1))
            &&& n == (Session {
                queue: n.queue,
                dl: Pane { bar: Progress::Hidden, ..s.dl },
                ..s
            })
        },
        UiMsg::Busy(Task::Convert, busy) => {
            &&& n == (Session {
                cv_busy: busy,
                cv: Pane {
                    bar: if busy {
                        s.cv.bar
                    } else {
                        Progress::Hidden
                    },
                    ..s.cv
                },
                ..s
            })
            &&& e == Effect::Nothing
        },
        UiMsg::Finished(Task::Download, outcome) => {
            &&& n.queue.view() == (State { outcome, ..s.queue.view() })
            &&& n == (Session { queue: n.queue, ..s })
            &&& e == Effect::Nothing
        },
        UiMsg::Finished(Task::Convert, outcome) => match outcome {
            Outcome::Success(Some(path)) => {
                &&& n.last_output@ == path@
                &&& n == (Session { last_output: n.last_output, ..s })
                &&& e == Effect::Converted(path)
            },
            _ => n == s && e == Effect::Nothing,
        },
        UiMsg::MediaInfo(info) => {
            &&& n == (if is_for_input(info, s) {
                Session { info, info_probing: false, ..s }
            } else {
                s
            })
            &&& e == Effect::Nothing
        },
        UiMsg::Toast(text, error) => {
            &&& is_toasted(n.toasts@, s.toasts@, text@, error, now)
            &&& n == (Session { toasts: n.toasts, ..s })
            &&& e == Effect::Nothing
        },
        UiMsg::SetupLog(text) => n == (Session { setup_log: text, ..s }) && e == Effect::Nothing,
        UiMsg::SetupBusy(busy) => n == (Session { setup_busy: busy, ..s }) && e == Effect::Nothing,
        UiMsg::Binary(tools) => adopts_tools(n, s, tools) && e == Effect::Probed,
        UiMsg::Conflict(req) => {
            &&& n.conflict_name@ == req.suggestion@
            &&& n == (Session {
                conflict: Some(req),
                conflict_name: n.conflict_name,
                conflict_error: None,
                ..s
            })
            &&& e == Effect::Nothing
        },
        UiMsg::UpdateStatus(text) => {
            &&& n == (Session { updater: Updater { status: text, ..s.updater }, ..s })
            &&& e == Effect::Nothing
        },
        UiMsg::UpdateCheck(result, kind) => {
            &&& is_checked(n.updater, s.updater, result, kind, skipped, s.lang)
            &&& !n.updater.checking
            &&& n == (Session { updater: n.updater, ..s })
            &&& e == Effect::Nothing
        },
        UiMsg::UpdateInstalled(result) => {
            &&& match result {
                Ok(version) => {
                    &&& n.updater.ui is Installed
                    &&& n.updater.ui->Installed_0@ == version@
                    &&& n.updater.status@ == with_argument(s.lang, "update.installed"@, version@)
                },
                Err(x) => {
                    &&& n.updater.ui == (match s.updater.ui {
                        UpdateUi::Installing(rel) => UpdateUi::Failed(rel),
                        other => other,
                    })
                    &&& n.updater.status@ == with_argument(s.lang, "update.failed"@, x@)
                },
            }
            &&& n.updater.checking == s.updater.checking
            &&& n == (Session { updater: n.updater, ..s })
            &&& e == Effect::Nothing
        },
    }
}

impl Session {
    /// The queue of the session is a valid one.
    pub open spec fn wf(&self) -> bool {
        self.queue.wf()
    }

    /// Takes in a message of a worker. `skipped` is the version that the user
    /// chose to skip.
    pub fn hear(&mut self, msg: UiMsg, skipped: &str, now: u64) -> (r: Effect)
        requires
            old(self).wf(),
        ensures
            final(self).wf(),
            heard(*final(self), *old(self), msg, r, skipped@, now),
    {
        match msg {
            UiMsg::Log(task, line) => {
                match task {
                    Task::Download => push_log(&mut self.dl.log, line.as_str()),
                    Task::Convert => push_log(&mut self.cv.log, line.as_str()),
                }
                Effect::Nothing
            },
            UiMsg::Progress(task, p) => {
                match task {
                    Task::Download => {
                        self.dl.bar = p;
                    },
                    Task::Convert => {
                        self.cv.bar = p;
                    },
                }
                Effect::Nothing
            },
            UiMsg::Status(task, text) => {
                match task {
                    Task::Download => {
                        self.dl.status = text;
                    },
                    Task::Convert => {
                        self.cv.status = text;
                    },
                }
                Effect::Nothing
            },
            UiMsg::Busy(task, busy) => match task {
                Task::Download => {
                    if busy {
                        self.queue.set_busy();
                        return Effect::Nothing;
                    }
                    self.dl.bar = Progress::Hidden;
                    // Sent after the worker's `Finished`, so the outcome it
                    // reported is already in hand.
                    let (outcome, step) = self.queue.download_ended();
                    Effect::Ended(outcome, step)
                },
                Task::Convert => {
                    self.cv_busy = busy;
                    if !busy {
                        self.cv.bar = Progress::Hidden;
                    }
                    Effect::Nothing
                },
            },
            UiMsg::Finished(task, outcome) => match task {
                Task::Download => {
                    self.queue.report(outcome);
                    Effect::Nothing
                },
                Task::Convert => match outcome {
                    Outcome::Success(Some(path)) => {
                        self.last_output = path.clone();
                        Effect::Converted(path)
                    },
                    _ => Effect::Nothing,
                },
            },
            UiMsg::MediaInfo(info) => {
                let adopt = match &info {
                    Some(i) => adopts_answer(
                        Some(i.path.as_str()),
                        self.info_for.as_str(),
                        self.convert.input.as_str(),
                    ),
                    None => adopts_answer(
                        None,
                        self.info_for.as_str(),
                        self.convert.input.as_str(),
                    ),
                };
                if adopt {
                    self.info_probing = false;
                    self.info = info;
                }
                Effect::Nothing
            },
            UiMsg::Toast(text, error) => {
                self.toast(text.as_str(), error, now);
                Effect::Nothing
            },
            UiMsg::SetupLog(text) => {
                self.setup_log = text;
                Effect::Nothing
            },
            UiMsg::SetupBusy(busy) => {
                self.setup_busy = busy;
                Effect::Nothing
            },
            UiMsg::Binary(tools) => {
                self.apply_status(tools);
                Effect::Probed
            },
            UiMsg::Conflict(req) => {
                self.conflict_name = req.suggestion.clone();
                self.conflict_error = None;
                self.conflict = Some(req);
                Effect::Nothing
            },
            UiMsg::UpdateStatus(text) => {
                self.updater.status = text;
                Effect::Nothing
            },
            UiMsg::UpdateCheck(result, kind) => {
                self.updater.checked(result, kind, skipped, self.lang);
                Effect::Nothing
            },
            UiMsg::UpdateInstalled(result) => {
                self.updater.installed(result, self.lang);
                Effect::Nothing
            },
        }
    }

    /// Adopts a probe result, from the cache or from a fresh run.
    pub fn apply_status(&mut self, tools: BinaryStatus)
        ensures
            adopts_tools(*final(self), *old(self), tools),
    {
        self.probing = false;
        if !tools.impersonate_ok {
            self.download.impersonate = false;
        }
        self.tools = tools;
    }

    /// Shows a short message.
    pub fn toast(&mut self, msg: &str, error: bool, now: u64)
        ensures
            is_toasted(final(self).toasts@, old(self).toasts@, msg@, error, now),
            *final(self) == (Session { toasts: final(self).toasts, ..*old(self) }),
    {
        self.toasts.push(new_toast(msg, error, now));
        assert(self.toasts@.drop_last() =~= old(self).toasts@);
    }
}

/// The window speaks another language from now on; a tab that is at work keeps
/// its status.
pub open spec fn speaks(n: Session, s: Session, lang: Lang) -> bool {
    &&& n.lang == lang
    &&& n.dl.status@ == (if s.queue.view().busy {
        s.dl.status@
    } else {
        phrase(lang, "status.ready"@)
    })
    &&& n.cv.status@ == (if s.cv_busy {
        s.cv.status@
    } else {
        phrase(lang, "status.ready"@)
    })
    &&& n == (Session {
        lang,
        dl: Pane { status: n.dl.status, ..s.dl },
        cv: Pane { status: n.cv.status, ..s.cv },
        ..s
    })
}

/// A conversion of this file is under way from now on.
pub open spec fn is_converting(n: Session, s: Session, name: Seq<char>) -> bool {
    &&& n.cv_busy
    &&& n.last_output@ == Seq::<char>::empty()
    &&& texts(n.cv.log@) == latest(message_lines(start_note(s.lang, "cvw.started"@, name)))
    &&& n.cv.status@ == phrase(s.lang, "status.converting"@)
    &&& n.cv.bar is Percent && n.cv.bar->Percent_0@ == "0"@
    &&& n == (Session { cv_busy: true, last_output: n.last_output, cv: n.cv, ..s })
}

/// The file that ffprobe is asked about, if it is asked at all.
pub open spec fn asked_about(input: Seq<char>, is_file: bool, ffmpeg_ok: bool) -> Option<Seq<char>> {
    if input.len() > 0 && is_file && ffmpeg_ok {
        Some(input)
    } else {
        None
    }
}

/// The fields of the Convert tab before anything was entered.
pub open spec fn is_first_form(f: ConvertForm) -> bool {
    &&& f.input@ == Seq::<char>::empty()
    &&& f.output@ == Seq::<char>::empty()
    &&& f.codec@ == codecs_of("editing"@)[0].0@
    &&& f.hw@ == "auto"@
    &&& f.bitrate_mode@ == "crf"@
    &&& f.crf == 20
    &&& f.custom_br == 20
    &&& f.preserve_color
}

/// `s` is the session that a program starts with.
pub open spec fn is_fresh(s: Session, lang: Lang) -> bool {
    &&& s.lang == lang
    &&& !s.probing
    &&& s.toasts@.len() == 0
    &&& s.setup_log@ == Seq::<char>::empty()
    &&& !s.setup_busy
    &&& s.queue.view() == (State {
        items: seq![],
        running: false,
        current: None,
        busy: false,
        outcome: Outcome::Failed,
    })
    &&& texts(s.dl.log@) == first_lines(lang)
    &&& s.dl.status@ == phrase(lang, "status.ready"@)
    &&& s.dl.bar is Hidden
    &&& is_first_form(s.convert)
    &&& s.category@ == "editing"@
    &&& texts(s.cv.log@) == seq![phrase(lang, "log.ready_conversion"@)]
    &&& s.cv.status@ == phrase(lang, "status.ready"@)
    &&& s.cv.bar is Hidden
    &&& !s.cv_busy
    &&& s.info is None
    &&& !s.info_probing
    &&& s.info_for@ == Seq::<char>::empty()
    &&& s.last_output@ == Seq::<char>::empty()
    &&& s.conflict is None
    &&& s.conflict_error is None
    &&& s.updater.ui is Idle
    &&& !s.updater.checking
    &&& s.updater.status@ == Seq::<char>::empty()
}

/// What a started download is announced with.
pub open spec fn start_note(lang: Lang, key: Seq<char>, what: Seq<char>) -> Seq<char> {
    phrase(lang, key).push('\n') + what.push('\n')
}

/// `n` is the session `s` once it follows a step of the queue, and `url` the
/// download to start.
pub open spec fn followed(
    n: Session,
    s: Session,
    step: Step,
    url: Option<Seq<char>>,
    now: u64,
) -> bool {
    match step {
        Step::Idle => n == s && url is None,
        Step::Download(u) => {
            &&& url == Some(u@)
            &&& n.current_url@ == u@
            &&& n.current_quality@ == s.download.quality@
            &&& texts(n.dl.log@) == latest(
                texts(s.dl.log@) + message_lines(start_note(s.lang, "dlw.started"@, u@)),
            )
            &&& n.dl.status@ == phrase(s.lang, "status.downloading"@)
            &&& n.dl.bar is Percent && n.dl.bar->Percent_0@ == "0"@
            &&& n == (Session {
                current_url: n.current_url,
                current_quality: n.current_quality,
                dl: n.dl,
                ..s
            })
        },
        Step::Finished(None) => n == s && url is None,
        Step::Finished(Some((done, failed))) => {
            &&& url is None
            &&& is_toasted(
                n.toasts@,
                s.toasts@,
                filled(phrase(s.lang, "dl.queue_done"@), seq![dec(done as nat), dec(failed as nat)]),
                failed > 0,
                now,
            )
            &&& n == (Session { toasts: n.toasts, ..s })
        },
    }
}

/// The record that a job left at the front of a history, under a label.
pub open spec fn is_remembered(
    n: Seq<Entry>,
    s: Seq<Entry>,
    kind: Kind,
    path: Option<Seq<char>>,
    url: Seq<char>,
    detail: Seq<char>,
    now: u64,
) -> bool {
    exists|name: Option<Seq<char>>| #[trigger]
        is_name_of(name, path) && if job_name(name, url).len() == 0 {
            n == s
        } else {
            exists|e: Entry| #[trigger]
                is_record(e, kind, job_name(name, url), path, url, detail, now) && n == pushed(s, e)
        }
}

/// `e` is the record of a job.
pub open spec fn is_record(
    e: Entry,
    kind: Kind,
    name: Seq<char>,
    path: Option<Seq<char>>,
    url: Seq<char>,
    detail: Seq<char>,
    now: u64,
) -> bool {
    &&& e.kind == kind
    &&& e.name@ == name
    &&& e.path@ == (match path {
        Some(p) => p,
        None => Seq::<char>::empty(),
    })
    &&& e.url@ == url
    &&& e.detail@ == detail
    &&& e.when == now
}

fn start_message(lang: Lang, key: &'static str, what: &str) -> (r: String)
    ensures
        r@ == start_note(lang, key@, what@),
{
    let mut out = t(lang, key).to_owned();
    out.push('\n');
    out.append(what);
    out.push('\n');
    assert(out@ =~= start_note(lang, key@, what@));
    out
}

impl Session {
    /// The session that a program starts with.
    pub fn new(lang: Lang, download: DownloadForm, history: Vec<Entry>) -> (r: Session)
        ensures
            r.wf(),
            is_fresh(r, lang),
            r.download == download,
            r.history == history,
            !r.tools.ytdlp_ok && !r.tools.ffmpeg_ok && !r.tools.deno_ok && !r.tools.impersonate_ok,
    {
        let codecs = codec_options("editing");
        let first = codecs[0].0;
        let mut cv_log: Vec<String> = Vec::new();
        cv_log.push(t(lang, "log.ready_conversion").to_owned());
        assert(texts(cv_log@) =~= seq![phrase(lang, "log.ready_conversion"@)]);
        Session {
            lang,
            tools: BinaryStatus::default(),
            probing: false,
            toasts: Vec::new(),
            setup_log: String::new(),
            setup_busy: false,
            download,
            queue: Queue::new(),
            current_url: String::new(),
            current_quality: String::new(),
            dl: Pane {
                log: opening_lines(lang),
                status: t(lang, "status.ready").to_owned(),
                bar: Progress::Hidden,
            },
            convert: ConvertForm {
                input: String::new(),
                output: String::new(),
                codec: first.to_owned(),
                hw: "auto".to_owned(),
                bitrate_mode: "crf".to_owned(),
                crf: 20,
                custom_br: 20,
                preserve_color: true,
            },
            category: "editing".to_owned(),
            cv: Pane {
                log: cv_log,
                status: t(lang, "status.ready").to_owned(),
                bar: Progress::Hidden,
            },
            cv_busy: false,
            info: None,
            info_probing: false,
            info_for: String::new(),
            last_output: String::new(),
            conflict: None,
            conflict_name: String::new(),
            conflict_error: None,
            history,
            updater: Updater::new(),
        }
    }

    /// Switches the language; says whether that changed anything. Statuses are
    /// plain texts, so an idle one would otherwise keep the previous language
    /// until the next run.
    pub fn set_lang(&mut self, lang: Lang) -> (r: bool)
        ensures
            r == (old(self).lang != lang),
            !r ==> *final(self) == *old(self),
            r ==> speaks(*final(self), *old(self), lang),
    {
        if self.lang == lang {
            return false;
        }
        self.lang = lang;
        if !self.queue.is_busy() {
            self.dl.status = t(lang, "status.ready").to_owned();
        }
        if !self.cv_busy {
            self.cv.status = t(lang, "status.ready").to_owned();
        }
        true
    }

    /// Follows a step of the queue; gives the download to start.
    pub fn follow(&mut self, step: Step, now: u64) -> (r: Option<String>)
        ensures
            followed(*final(self), *old(self), step, opt_text(r), now),
    {
        match step {
            Step::Idle => None,
            Step::Download(url) => {
                self.current_url = url.clone();
                self.current_quality = self.download.quality.clone();
                self.dl.status = t(self.lang, "status.downloading").to_owned();
                self.dl.bar = Progress::Percent("0".to_owned());
                let note = start_message(self.lang, "dlw.started", url.as_str());
                push_log(&mut self.dl.log, note.as_str());
                Some(url)
            },
            Step::Finished(count) => {
                if let Some((done, failed)) = count {
                    let msg = queue_summary(self.lang, done, failed);
                    self.toast(msg.as_str(), failed > 0, now);
                }
                None
            },
        }
    }

    /// Stops the downloads: nothing starts on its own any more.
    pub fn stop_download(&mut self)
        requires
            old(self).wf(),
        ensures
            final(self).wf(),
            final(self).queue.view() == (State { running: false, ..old(self).queue.view() }),
            final(self).dl.status@ == phrase(old(self).lang, "status.cancelled"@),
            *final(self) == (Session {
                queue: final(self).queue,
                dl: Pane { status: final(self).dl.status, ..old(self).dl },
                ..*old(self)
            }),
    {
        self.queue.stop_download();
        self.dl.status = t(self.lang, "status.cancelled").to_owned();
    }

    /// Says that the conversion is being stopped.
    pub fn stop_convert(&mut self)
        ensures
            final(self).cv.status@ == phrase(old(self).lang, "status.cancelled"@),
            *final(self) == (Session {
                cv: Pane { status: final(self).cv.status, ..old(self).cv },
                ..*old(self)
            }),
    {
        self.cv.status = t(self.lang, "status.cancelled").to_owned();
    }

    /// Takes down that a conversion of the file `name` starts.
    pub fn convert_started(&mut self, name: &str)
        ensures
            is_converting(*final(self), *old(self), name@),
    {
        self.last_output = String::new();
        self.cv.log = Vec::new();
        self.cv.status = t(self.lang, "status.converting").to_owned();
        self.cv.bar = Progress::Percent("0".to_owned());
        self.cv_busy = true;
        let note = start_message(self.lang, "cvw.started", name);
        assert(texts(self.cv.log@) =~= seq![]);
        push_log(&mut self.cv.log, note.as_str());
        assert(seq![] + message_lines(note@) =~= message_lines(note@));
    }

    /// Takes down that the source is to be probed, where it can be: `is_file`
    /// says whether one is there. Gives the file to probe.
    pub fn start_media_probe(&mut self, is_file: bool) -> (r: Option<String>)
        ensures
            final(self).info is None,
            final(self).info_for@ == trimmed(old(self).convert.input@),
            final(self).info_probing == (r is Some),
            opt_text(r) == asked_about(
                trimmed(old(self).convert.input@),
                is_file,
                old(self).tools.ffmpeg_ok,
            ),
            *final(self) == (Session {
                info: None,
                info_for: final(self).info_for,
                info_probing: final(self).info_probing,
                ..*old(self)
            }),
    {
        let file = trim(self.convert.input.as_str());
        self.info = None;
        self.info_for = file.clone();
        if file.as_str().is_empty() || !is_file || !self.tools.ffmpeg_ok {
            self.info_probing = false;
            return None;
        }
        self.info_probing = true;
        Some(file)
    }

    /// Writes one finished job into the history.
    fn remember(&mut self, kind: Kind, path: Option<&str>, url: &str, detail: &str, now: u64)
        ensures
            is_remembered(
                final(self).history@,
                old(self).history@,
                kind,
                opt_str(path),
                url@,
                detail@,
                now,
            ),
            *final(self) == (Session { history: final(self).history, ..*old(self) }),
    {
        let entry = finished_job(kind, path, url, detail, now);
        let ghost name = choose|name: Option<Seq<char>>| #[trigger]
            is_name_of(name, opt_str(path)) && entry is Some == (job_name(name, url@).len() > 0) && (
            entry is Some ==> entry->0.name@ == job_name(name, url@));
        match entry {
            Some(e) => {
                assert(is_record(e, kind, job_name(name, url@), opt_str(path), url@, detail@, now));
                crate::history::push(&mut self.history, e);
            },
            None => {},
        }
        assert(is_name_of(name, opt_str(path)));
    }

    /// Writes the finished download into the history, under the label of its
    /// preset.
    pub fn remember_download(&mut self, path: Option<&str>, now: u64)
        ensures
            is_remembered(
                final(self).history@,
                old(self).history@,
                Kind::Download,
                opt_str(path),
                old(self).current_url@,
                label_text(old(self).lang, old(self).current_quality@, QUALITY_OPTIONS@),
                now,
            ),
            *final(self) == (Session { history: final(self).history, ..*old(self) }),
    {
        let url = self.current_url.clone();
        let detail = label_of(self.lang, self.current_quality.as_str(), &QUALITY_OPTIONS);
        self.remember(Kind::Download, path, url.as_str(), detail.as_str(), now);
    }

    /// Writes the finished conversion into the history, under the label of its
    /// codec.
    pub fn remember_convert(&mut self, path: &str, now: u64)
        ensures
            is_remembered(
                final(self).history@,
                old(self).history@,
                Kind::Convert,
                Some(path@),
                Seq::empty(),
                label_text(
                    old(self).lang,
                    old(self).convert.codec@,
                    codecs_of(old(self).category@),
                ),
                now,
            ),
            *final(self) == (Session { history: final(self).history, ..*old(self) }),
    {
        let options = codec_options(self.category.as_str());
        let detail = label_of(self.lang, self.convert.codec.as_str(), options);
        proof {
            reveal_strlit("");
        }
        assert(""@ =~= Seq::empty());
        self.remember(Kind::Convert, Some(path), "", detail.as_str(), now);
    }
}

// ---------------- laws ----------------

/// A late answer of a probe for a file that is no longer the input is dropped:
/// nothing of it is ever shown.
pub proof fn a_late_answer_is_dropped(
    n: Session,
    s: Session,
    info: Option<MediaInfo>,
    e: Effect,
    skipped: Seq<char>,
    now: u64,
)
    requires
        heard(n, s, UiMsg::MediaInfo(info), e, skipped, now),
        info is Some,
        info->0.path@ != trimmed(s.convert.input@),
        s.info_for@ != trimmed(s.convert.input@),
    ensures
        n == s,
{
}

/// A message of one tab leaves the other alone.
pub proof fn a_tab_keeps_to_itself(
    n: Session,
    s: Session,
    msg: UiMsg,
    e: Effect,
    skipped: Seq<char>,
    now: u64,
)
    requires
        heard(n, s, msg, e, skipped, now),
    ensures
        speaks_of(msg) == Some(Task::Download) ==> n.cv == s.cv && n.cv_busy == s.cv_busy
            && n.last_output == s.last_output,
        speaks_of(msg) == Some(Task::Convert) ==> n.dl == s.dl && n.queue == s.queue,
{
}

/// The tab that a message is about.
pub open spec fn speaks_of(msg: UiMsg) -> Option<Task> {
    match msg {
        UiMsg::Log(t, _) => Some(t),
        UiMsg::Progress(t, _) => Some(t),
        UiMsg::Status(t, _) => Some(t),
        UiMsg::Busy(t, _) => Some(t),
        UiMsg::Finished(t, _) => Some(t),
        _ => None,
    }
}

/// What a worker says reaches the tab it speaks of: its line the end of the log,
/// its progress the bar, its status the status line.
pub proof fn a_worker_is_heard_in_its_tab(
    n: Session,
    s: Session,
    e: Effect,
    skipped: Seq<char>,
    now: u64,
    text: String,
    bar: Progress,
)
    requires
        message_lines(text@).len() <= 1200,
    ensures
        heard(n, s, UiMsg::Log(Task::Download, text), e, skipped, now) ==> message_lines(
            text@,
        ).is_suffix_of(texts(n.dl.log@)),
        heard(n, s, UiMsg::Log(Task::Convert, text), e, skipped, now) ==> message_lines(
            text@,
        ).is_suffix_of(texts(n.cv.log@)),
        heard(n, s, UiMsg::Progress(Task::Download, bar), e, skipped, now) ==> n.dl.bar == bar,
        heard(n, s, UiMsg::Progress(Task::Convert, bar), e, skipped, now) ==> n.cv.bar == bar,
        heard(n, s, UiMsg::Status(Task::Download, text), e, skipped, now) ==> n.dl.status == text,
        heard(n, s, UiMsg::Status(Task::Convert, text), e, skipped, now) ==> n.cv.status == text,
{
    a_log_keeps_its_latest_lines(texts(s.dl.log@), text@);
    a_log_keeps_its_latest_lines(texts(s.cv.log@), text@);
}

/// What is said of the program as a whole is kept as it was said.
pub proof fn other_news_are_kept(
    n: Session,
    s: Session,
    e: Effect,
    skipped: Seq<char>,
    now: u64,
    text: String,
    flag: bool,
    tools: BinaryStatus,
    req: ConflictReq,
)
    requires
        now < 0x1_0000_0000_0000,
    ensures
        heard(n, s, UiMsg::SetupLog(text), e, skipped, now) ==> n.setup_log == text,
        heard(n, s, UiMsg::SetupBusy(flag), e, skipped, now) ==> n.setup_busy == flag,
        heard(n, s, UiMsg::Busy(Task::Convert, flag), e, skipped, now) ==> n.cv_busy == flag && (
        !flag ==> n.cv.bar is Hidden),
        heard(n, s, UiMsg::Toast(text, flag), e, skipped, now) ==> n.toasts@.len()
            == s.toasts@.len() + 1 && n.toasts@.last().msg@ == text@ && n.toasts@.last().error
            == flag && n.toasts@.last().until == now + 3000,
        heard(n, s, UiMsg::UpdateStatus(text), e, skipped, now) ==> n.updater.status == text
            && n.updater.ui == s.updater.ui,
        heard(n, s, UiMsg::Binary(tools), e, skipped, now) ==> n.tools == tools && !n.probing && e
            is Probed && (n.download.impersonate <==> s.download.impersonate
            && tools.impersonate_ok) && n.download.quality == s.download.quality,
        heard(n, s, UiMsg::Conflict(req), e, skipped, now) ==> n.conflict == Some(req)
            && n.conflict_name@ == req.suggestion@ && n.conflict_error is None,
{
}

/// The outcome that a download reports is the one it is filed under when it
/// ends, and its bar goes.
pub proof fn a_download_ends_as_it_reported(
    n: Session,
    mid: Session,
    s: Session,
    o: Outcome,
    e: Effect,
    f: Effect,
    skipped: Seq<char>,
    now: u64,
)
    requires
        heard(mid, s, UiMsg::Finished(Task::Download, o), e, skipped, now),
        heard(n, mid, UiMsg::Busy(Task::Download, false), f, skipped, now),
        s.queue.view().current is Some,
    ensures
        f is Ended && f->Ended_0 == Some(o),
        n.dl.bar is Hidden,
{
}

/// A conversion that wrote a file leaves it as the last output; one that did
/// not leaves everything as it was.
pub proof fn a_conversion_leaves_its_output(
    n: Session,
    s: Session,
    o: Outcome,
    e: Effect,
    skipped: Seq<char>,
    now: u64,
)
    requires
        heard(n, s, UiMsg::Finished(Task::Convert, o), e, skipped, now),
    ensures
        o matches Outcome::Success(Some(path)) ==> n.last_output@ == path@ && e
            == Effect::Converted(path),
        !(o is Success) ==> n == s && e is Nothing,
{
}

/// What ffprobe said is shown for the file it was asked about.
pub proof fn an_answer_is_shown_for_its_file(
    n: Session,
    s: Session,
    info: MediaInfo,
    e: Effect,
    skipped: Seq<char>,
    now: u64,
)
    requires
        heard(n, s, UiMsg::MediaInfo(Some(info)), e, skipped, now),
        info.path@ == trimmed(s.convert.input@) || s.info_for@ == trimmed(s.convert.input@),
    ensures
        n.info == Some(info) && !n.info_probing,
{
}

/// An update that was installed is told with its version, and one that failed
/// with the reason; the release that failed stays at hand.
pub proof fn an_install_ends_in_its_result(
    n: Session,
    s: Session,
    e: Effect,
    skipped: Seq<char>,
    now: u64,
    version: String,
    error: String,
)
    ensures
        heard(n, s, UiMsg::UpdateInstalled(Ok(version)), e, skipped, now) ==> n.updater.ui
            is Installed && n.updater.ui->Installed_0@ == version@ && n.updater.status@ == filled(
            phrase(s.lang, "update.installed"@),
            seq![version@],
        ),
        heard(n, s, UiMsg::UpdateInstalled(Err(error)), e, skipped, now) ==> n.updater.status@
            == filled(phrase(s.lang, "update.failed"@), seq![error@]) && !(n.updater.ui
            is Installing) && (s.updater.ui is Installing ==> n.updater.ui == UpdateUi::Failed(
            s.updater.ui->Installing_0,
        )),
{
}

/// The first conversion is set for editing, by quality, on the hardware that is
/// there, and keeps the colors.
pub proof fn a_first_conversion_is_set_for_editing(f: ConvertForm)
    requires
        is_first_form(f),
    ensures
        f.codec@ == "h264_allintra"@,
        f.hw@ == "auto"@,
        f.bitrate_mode@ == "crf"@,
        f.crf == 20 && f.custom_br == 20 && f.preserve_color,
        f.input@.len() == 0 && f.output@.len() == 0,
{
    reveal_strlit("standard");
    reveal_strlit("delivery");
    reveal_strlit("audio");
    reveal_strlit("editing");
    assert("editing"@[0] == 'e');
    assert("standard"@[0] == 's' && "delivery"@[0] == 'd' && "audio"@[0] == 'a');
}

/// A download that starts is told in the log, the status and the bar; a list
/// that is worked off is told with its numbers, as an error where one failed.
pub proof fn a_step_is_told(
    n: Session,
    s: Session,
    u: String,
    url: Option<Seq<char>>,
    done: usize,
    failed: usize,
    now: u64,
)
    ensures
        followed(n, s, Step::Download(u), url, now) ==> url == Some(u@) && n.current_url@ == u@
            && n.current_quality@ == s.download.quality@ && n.dl.status@ == phrase(
            s.lang,
            "status.downloading"@,
        ) && n.dl.bar is Percent && n.dl.bar->Percent_0@ == "0"@,
        followed(n, s, Step::Finished(Some((done, failed))), url, now) ==> url is None
            && n.toasts@.len() > 0 && n.toasts@.last().msg@ == filled(
            phrase(s.lang, "dl.queue_done"@),
            seq![dec(done as nat), dec(failed as nat)],
        ) && (n.toasts@.last().error <==> failed > 0),
        followed(n, s, Step::Idle, url, now) ==> n == s && url is None,
{
}

/// A run that is remembered heads the history with what it was: its kind, its
/// file, its address, its preset and its time. One with an address is always
/// remembered.
pub proof fn a_run_heads_the_history(
    n: Seq<Entry>,
    s: Seq<Entry>,
    kind: Kind,
    path: Seq<char>,
    url: Seq<char>,
    detail: Seq<char>,
    now: u64,
)
    requires
        is_remembered(n, s, kind, Some(path), url, detail, now),
    ensures
        n == s || (n.len() > 0 && n[0].kind == kind && n[0].path@ == path && n[0].url@ == url
            && n[0].detail@ == detail && n[0].when == now && n[0].name@.len() > 0),
        url.len() > 0 ==> n.len() > 0 && n[0].url@ == url && n[0].path@ == path && n[0].when == now,
{
    let name = choose|name: Option<Seq<char>>| #[trigger]
        is_name_of(name, Some(path)) && if job_name(name, url).len() == 0 {
            n == s
        } else {
            exists|e: Entry| #[trigger]
                is_record(e, kind, job_name(name, url), Some(path), url, detail, now) && n
                    == pushed(s, e)
        };
    if job_name(name, url).len() > 0 {
        let e = choose|e: Entry| #[trigger]
            is_record(e, kind, job_name(name, url), Some(path), url, detail, now) && n == pushed(
                s,
                e,
            );
        the_newest_run_is_kept(s, e);
    }
}

/// A fresh window is ready in both tabs, with an empty queue and nothing at
/// work.
pub proof fn a_fresh_window_is_ready(s: Session, lang: Lang)
    requires
        is_fresh(s, lang),
    ensures
        s.lang == lang,
        s.dl.status@ == phrase(lang, "status.ready"@) && s.cv.status@ == phrase(
            lang,
            "status.ready"@,
        ),
        s.dl.bar is Hidden && s.cv.bar is Hidden,
        s.queue.view().items.len() == 0 && !s.queue.view().running && !s.queue.view().busy,
        !s.cv_busy && !s.setup_busy && !s.probing && !s.info_probing && !s.updater.checking,
        s.category@ == "editing"@,
        texts(s.cv.log@) == seq![phrase(lang, "log.ready_conversion"@)],
        s.toasts@.len() == 0 && s.conflict is None && s.info is None && s.updater.ui is Idle,
{
}

/// The log of a download that starts ends with its address.
pub proof fn a_started_download_is_logged(
    n: Session,
    s: Session,
    u: String,
    url: Option<Seq<char>>,
    now: u64,
)
    requires
        followed(n, s, Step::Download(u), url, now),
    ensures
        texts(n.dl.log@) == latest(
            texts(s.dl.log@) + message_lines(
                phrase(s.lang, "dlw.started"@).push('\n') + u@.push('\n'),
            ),
        ),
{
}

/// ffprobe is asked about a source that is a file, where ffmpeg is there.
pub proof fn a_source_is_asked_about(input: Seq<char>, is_file: bool, ffmpeg_ok: bool)
    ensures
        input.len() > 0 && is_file && ffmpeg_ok ==> asked_about(input, is_file, ffmpeg_ok) == Some(
            input,
        ),
        input.len() == 0 || !is_file || !ffmpeg_ok ==> asked_about(input, is_file, ffmpeg_ok)
            is None,
{
}

/// Another language reaches the status of every tab that is idle.
pub proof fn an_idle_tab_speaks_the_new_language(n: Session, s: Session, lang: Lang)
    requires
        speaks(n, s, lang),
    ensures
        n.lang == lang,
        !s.queue.view().busy ==> n.dl.status@ == phrase(lang, "status.ready"@),
        s.queue.view().busy ==> n.dl.status@ == s.dl.status@,
        !s.cv_busy ==> n.cv.status@ == phrase(lang, "status.ready"@),
        s.cv_busy ==> n.cv.status@ == s.cv.status@,
        n.dl.log == s.dl.log && n.cv.log == s.cv.log && n.queue == s.queue,
{
}

/// A conversion that starts is told in the status and the bar, and its log is
/// begun anew.
pub proof fn a_started_conversion_is_told(n: Session, s: Session, name: Seq<char>)
    requires
        is_converting(n, s, name),
    ensures
        n.cv_busy && n.last_output@.len() == 0,
        n.cv.status@ == phrase(s.lang, "status.converting"@),
        n.cv.bar is Percent && n.cv.bar->Percent_0@ == "0"@,
        texts(n.cv.log@) == latest(
            message_lines(phrase(s.lang, "cvw.started"@).push('\n') + name.push('\n')),
        ),
        n.dl == s.dl && n.queue == s.queue,
{
}

} // verus!
