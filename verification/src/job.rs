//! One download from start to end: what is asked of the world around it at
//! each turn, and what follows from the answer.
//!
//! The job does no work itself. It names an action - list a folder, run a
//! command, ask the user - and is told what came of it.

use crate::consts::YTDLP_INSTAGRAM_FIX;
use crate::convert::is_file_name;
use crate::download::{
    a_download_ends_with_its_url, anon_outtmpl, build_download_cmd, build_probe_cmd,
    download_command, first_attempt, has_cookies, instagram_files_get_a_neutral_name, is_anon_host,
    is_probed, is_target, needs_anon_name, probe_command, probed_target, retry_after, Attempt,
    Retry, MAX_ATTEMPTS,
};
use crate::i18n::{filled, phrase, t, Lang};
use crate::number::dec;
use crate::path::{joins, path_of, path_text, plain_name, route_of, stem_of};
use crate::text::{lowered, opt_str, opt_text, same, texts, within};
use crate::transfer::{
    after_probe, after_run, anon_plan, conflict_question, decided_plan, ended_said,
    every_end_is_told_once, failure_of, instagram_hints, is_no_plan, is_plain_plan, is_verdict,
    names_file, names_files, not_started_said, playlist_plan, preflight_hints, renamed_plan,
    report_ended, report_not_started, report_spawn_error, retry_said, target_rule, tries_again,
    youtube_hints, AfterRun, Plan, TargetStep, Tools,
};
use crate::types::{
    said, say_log, say_status, ConflictDecision, ConflictReq, DownloadOpts, End, Said, Task, UiMsg,
};
use crate::util::{
    a_picked_name_is_free, anon_name, anon_number, are_stems, escaped, is_copy, is_copy_in,
    is_older, is_template_for, literal_of, literal_path, some_name_is_free, taken_stems,
    unique_path, version, FreeName,
};
use vstd::prelude::*;

verus! {

/// What is to be downloaded, and how.
#[derive(Debug)]
pub struct Request {
    /// The yt-dlp to run.
    pub program: String,
    pub url: String,
    pub out_dir: String,
    pub quality: String,
    /// The browser whose cookies are used.
    pub cookies: Option<String>,
    pub opts: DownloadOpts,
    pub tools: Tools,
    pub lang: Lang,
}

/// What one yt-dlp run ended up doing.
#[derive(Debug)]
pub struct Run {
    pub code: i32,
    pub skipped_existing: bool,
    /// Everything the run printed on either stream, lowercased.
    pub logs: String,
    /// The file the run says it wrote, when one of its lines named it.
    pub produced: Option<String>,
}

/// How far a job is: what it waits for.
#[derive(Debug)]
pub enum Stage {
    Fresh,
    /// The names in the output folder, to draw a neutral one beside them.
    Naming,
    /// The file that yt-dlp would write.
    Probing,
    /// Whether the target is there already.
    Checking { target: String },
    /// Whether a numbered copy is there already.
    Searching { target: String, asked: String, tried: u64 },
    /// What the user says about a target that is there.
    Deciding { target: String },
    /// The end of a run.
    Running { outtmpl: Option<String>, force: bool, attempt: u64, retry: Retry },
    /// The end of the pause before another run.
    Pausing { outtmpl: Option<String>, force: bool, attempt: u64, retry: Retry, run: Run },
    /// Whether the file that was asked for is there.
    Locating { run: Run, path: String },
    Over,
}

/// What the world answers.
#[derive(Debug)]
pub enum Event {
    Begin,
    /// The names in the output folder, random numbers and the time.
    Folder { names: Vec<String>, draws: Vec<u64>, now: u64 },
    /// The lines that a probe printed.
    Printed(Vec<String>),
    /// Whether the path that was asked for is there.
    Looked(bool),
    /// What the user decided, if anything.
    Answered(Option<ConflictDecision>),
    Ran(Run),
    /// A run could not be started, and why.
    NotStarted(Option<String>),
    /// Whether the pause lasted to its end.
    Waited(bool),
}

/// What a job asks of the world.
#[derive(Debug)]
pub enum Action {
    ListFolder,
    Probe(Vec<String>),
    Look(String),
    AskUser(ConflictReq),
    Run(Vec<String>),
    Pause,
    Finish,
}

/// One download.
#[derive(Debug)]
pub struct Job {
    pub request: Request,
    pub stage: Stage,
}

// ---------------- what follows ----------------

/// The command of a run.
pub open spec fn is_command(
    cmd: Seq<Seq<char>>,
    req: Request,
    outtmpl: Option<Seq<char>>,
    force: bool,
    retry: Retry,
) -> bool {
    exists|target: Seq<char>| #[trigger]
        is_target(target, outtmpl, req.out_dir@, req.opts.playlist) && cmd == download_command(
            req.program@,
            req.url@,
            lowered(req.url@),
            target,
            req.quality@,
            opt_text(req.cookies),
            req.opts,
            force,
            retry,
        )
}

/// A run begins.
pub open spec fn launches(
    n: Stage,
    a: Action,
    m: Seq<Said>,
    req: Request,
    outtmpl: Option<Seq<char>>,
    force: bool,
    attempt: nat,
    retry: Retry,
) -> bool {
    &&& n matches Stage::Running { outtmpl: o, force: f, attempt: k, retry: r } && opt_text(o)
        == outtmpl && f == force && k == attempt && r == retry
    &&& a matches Action::Run(cmd) && is_command(texts(cmd@), req, outtmpl, force, retry)
    &&& m == seq![Said::Status(Task::Download, phrase(req.lang, "status.downloading"@))]
}

/// What a plan logs.
pub open spec fn plan_said(p: Plan) -> Seq<Said> {
    match p.log {
        Some(line) => seq![Said::Log(Task::Download, line@)],
        None => seq![],
    }
}

/// The first run of a plan begins, unless the plan is to download nothing.
pub open spec fn pursues(
    n: Stage,
    a: Action,
    m: Seq<Said>,
    req: Request,
    p: Plan,
    cancelled: bool,
) -> bool {
    if p.cancelled {
        &&& n is Over
        &&& a is Finish
        &&& m == plan_said(p) + not_started_said(cancelled, req.lang)
    } else {
        &&& m.len() > 0
        &&& m.drop_last() == plan_said(p)
        &&& launches(
            n,
            a,
            seq![m.last()],
            req,
            opt_text(p.outtmpl),
            p.force_overwrite,
            0,
            first_attempt(),
        )
    }
}

/// A free name beside the target is used, or put to the user.
pub open spec fn uses_name(
    n: Stage,
    a: Action,
    m: Seq<Said>,
    req: Request,
    target: Seq<char>,
    free: Seq<char>,
    cancelled: bool,
) -> bool {
    if req.opts.conflict@ == "rename"@ {
        exists|p: Plan| #[trigger]
            pursues(n, a, m, req, p, cancelled) && !p.cancelled && !p.force_overwrite
                && p.outtmpl is Some && is_template_for(p.outtmpl->0@, free) && p.log is Some
                && names_files(p.log->0@, req.lang, "dlw.exists_saving_as"@, target, free)
    } else {
        &&& n matches Stage::Deciding { target: x } && x@ == target
        &&& a matches Action::AskUser(q) && q.target@ == target && is_file_name(q.suggestion@, free)
        &&& m == seq![Said::Status(Task::Download, phrase(req.lang, "dlw.waiting_decision"@))]
    }
}

/// The search for a free name goes on: copy after copy is looked for, until one
/// is not there. Nothing is downloaded where the numbers run out.
pub open spec fn searches(
    n: Stage,
    a: Action,
    m: Seq<Said>,
    req: Request,
    target: Seq<char>,
    asked: Seq<char>,
    is_there: bool,
    tried: nat,
    cancelled: bool,
) -> bool {
    if !is_there {
        uses_name(n, a, m, req, target, asked, cancelled)
    } else if tried + 1 < u64::MAX {
        &&& match (n, a) {
            (Stage::Searching { target: x, asked: y, tried: k }, Action::Look(z)) => {
                x@ == target && is_copy(y@, target, tried + 1) && k == tried + 1 && z@ == y@
            },
            _ => false,
        }
        &&& m.len() == 0
    } else {
        exists|p: Plan| #[trigger] pursues(n, a, m, req, p, cancelled) && is_no_plan(p)
    }
}

/// A job comes to its end after a run: the file that was asked for may still
/// have to be looked for. A renamed target is the file that was asked for; the
/// log line only confirms it. When neither is known the outcome simply carries
/// no path.
pub open spec fn ends(
    n: Stage,
    a: Action,
    m: Seq<Said>,
    req: Request,
    outtmpl: Option<Seq<char>>,
    run: Run,
    cancelled: bool,
) -> bool {
    if run.produced is None && outtmpl is Some {
        &&& match (n, a) {
            (Stage::Locating { run: x, path }, Action::Look(z)) => {
                x == run && path@ == literal_of(outtmpl->0) && z@ == path@
            },
            _ => false,
        }
        &&& m.len() == 0
    } else {
        reports(n, a, m, req, run, opt_text(run.produced), cancelled)
    }
}

/// The end of a job is told.
pub open spec fn reports(
    n: Stage,
    a: Action,
    m: Seq<Said>,
    req: Request,
    run: Run,
    produced: Option<Seq<char>>,
    cancelled: bool,
) -> bool {
    &&& n is Over
    &&& a is Finish
    &&& m == ended_said(
        cancelled,
        run.code as int,
        run.skipped_existing,
        run.logs@,
        produced,
        req.tools.js_runtime@,
        req.lang,
    )
}

/// The warnings before a download.
pub open spec fn hints_of(req: Request) -> Seq<Seq<char>> {
    youtube_hints(
        lowered(req.url@),
        req.quality@,
        has_cookies(opt_text(req.cookies), req.opts),
        req.opts,
        req.tools.js_runtime@,
        req.lang,
    ) + instagram_hints(
        lowered(req.url@),
        has_cookies(opt_text(req.cookies), req.opts),
        req.opts,
        is_older(version(req.tools.ytdlp_version@), version(YTDLP_INSTAGRAM_FIX@)),
        req.tools.ytdlp_version@,
        req.lang,
    )
}

/// A list of texts in the log.
pub open spec fn logged(lines: Seq<Seq<char>>) -> Seq<Said> {
    lines.map_values(|l: Seq<char>| Said::Log(Task::Download, l))
}

/// A fresh job begins, after its warnings.
pub open spec fn begins(n: Stage, a: Action, m: Seq<Said>, req: Request, cancelled: bool) -> bool {
    if is_anon_host(lowered(req.url@)) {
        n is Naming && a is ListFolder && m.len() == 0
    } else if req.opts.playlist {
        exists|p: Plan| #[trigger]
            pursues(n, a, m, req, p, cancelled) && is_plain_plan(
                p,
                req.opts.conflict@ == "overwrite"@,
                Some(phrase(req.lang, "dlw.playlist_mode"@)),
            )
    } else if req.opts.conflict@ == "overwrite"@ || req.opts.conflict@ == "skip"@ {
        exists|p: Plan| #[trigger]
            pursues(n, a, m, req, p, cancelled) && is_plain_plan(
                p,
                req.opts.conflict@ == "overwrite"@,
                None,
            )
    } else {
        &&& n is Probing
        &&& a matches Action::Probe(cmd) && exists|c: Seq<Seq<char>>| #[trigger]
            is_command(c, req, None, false, first_attempt()) && texts(cmd@) == probe_command(c)
        &&& m == seq![Said::Status(Task::Download, phrase(req.lang, "dlw.checking_target"@))]
    }
}

/// A neutral name was drawn.
pub open spec fn draws_name(
    n: Stage,
    a: Action,
    m: Seq<Said>,
    req: Request,
    names: Seq<Seq<char>>,
    draws: Seq<u64>,
    now: nat,
    cancelled: bool,
) -> bool {
    exists|p: Plan, taken: Seq<Seq<char>>|
        {
            let stem = anon_name(anon_number(taken, draws, now));
            &&& #[trigger] pursues(n, a, m, req, p, cancelled)
            &&& #[trigger] are_stems(taken, names)
            &&& !p.cancelled && !p.force_overwrite && p.outtmpl is Some && p.log is Some
            &&& joins(p.outtmpl->0@, escaped(req.out_dir@), stem + ".%(ext)s"@)
            &&& p.log->0@ == filled(phrase(req.lang, "dlw.anon_name"@), seq![stem])
            &&& some_name_is_free(taken) ==> is_unused(stem, names)
        }
}

/// No plain file name has this stem, in whatever case.
pub open spec fn is_unused(stem: Seq<char>, names: Seq<Seq<char>>) -> bool {
    forall|i: int|
        0 <= i < names.len() && plain_name(#[trigger] names[i]) ==> lowered(stem_of(names[i]))
            != stem
}

/// What a probe printed is judged.
pub open spec fn judges_target(
    n: Stage,
    a: Action,
    m: Seq<Said>,
    req: Request,
    lines: Seq<Seq<char>>,
    cancelled: bool,
) -> bool {
    if cancelled {
        exists|p: Plan| #[trigger] pursues(n, a, m, req, p, cancelled) && is_no_plan(p)
    } else if lines.len() == 0 {
        exists|p: Plan| #[trigger]
            pursues(n, a, m, req, p, cancelled) && is_plain_plan(
                p,
                false,
                Some(phrase(req.lang, "dlw.no_target_name"@)),
            )
    } else {
        &&& match (n, a) {
            (Stage::Checking { target }, Action::Look(z)) => {
                &&& z@ == target@
                &&& is_probed(target@, lines.last(), req.quality@)
            },
            _ => false,
        }
        &&& m.len() == 0
    }
}

/// A target was looked for.
pub open spec fn judges_conflict(
    n: Stage,
    a: Action,
    m: Seq<Said>,
    req: Request,
    target: Seq<char>,
    is_there: bool,
    cancelled: bool,
) -> bool {
    if is_there {
        searches(n, a, m, req, target, target, true, 0, cancelled)
    } else {
        exists|p: Plan| #[trigger]
            pursues(n, a, m, req, p, cancelled) && p.log is Some && is_plain_plan(
                p,
                false,
                Some(p.log->0@),
            ) && names_file(p.log->0@, req.lang, "dlw.target_file"@, target)
    }
}

/// The user decided, or did not.
pub open spec fn obeys(
    n: Stage,
    a: Action,
    m: Seq<Said>,
    req: Request,
    target: Seq<char>,
    answer: Option<ConflictDecision>,
    cancelled: bool,
) -> bool {
    exists|p: Plan| #[trigger]
        pursues(n, a, m, req, p, cancelled) && match answer {
            Some(ConflictDecision::Overwrite) => p.log is Some && is_plain_plan(
                p,
                true,
                Some(p.log->0@),
            ) && names_file(p.log->0@, req.lang, "dlw.overwriting"@, target),
            Some(ConflictDecision::Rename(path)) => {
                &&& !p.force_overwrite && !p.cancelled
                &&& p.outtmpl is Some && is_template_for(p.outtmpl->0@, path@)
                &&& p.log is Some && names_file(p.log->0@, req.lang, "dlw.saving_as"@, path@)
            },
            Some(ConflictDecision::Skip) => is_no_plan(p),
            None => is_no_plan(p),
        }
}

/// `n` is the stage that follows `s` when `e` comes, with the messages `m` and
/// the next action `a`. `cancelled` says whether Stop was pressed by then. An
/// answer that was not asked for ends the job.
pub open spec fn follows(
    n: Stage,
    s: Stage,
    e: Event,
    m: Seq<Said>,
    a: Action,
    req: Request,
    cancelled: bool,
) -> bool {
    match (s, e) {
        (Stage::Fresh, Event::Begin) => {
            let h = logged(hints_of(req));
            &&& h.len() <= m.len()
            &&& m.take(h.len() as int) == h
            &&& begins(n, a, m.skip(h.len() as int), req, cancelled)
        },
        (Stage::Naming, Event::Folder { names, draws, now }) => draws_name(
            n,
            a,
            m,
            req,
            texts(names@),
            draws@,
            now as nat,
            cancelled,
        ),
        (Stage::Probing, Event::Printed(lines)) => judges_target(
            n,
            a,
            m,
            req,
            texts(lines@),
            cancelled,
        ),
        (Stage::Checking { target }, Event::Looked(is_there)) => judges_conflict(
            n,
            a,
            m,
            req,
            target@,
            is_there,
            cancelled,
        ),
        (Stage::Searching { target, asked, tried }, Event::Looked(is_there)) => searches(
            n,
            a,
            m,
            req,
            target@,
            asked@,
            is_there,
            tried as nat,
            cancelled,
        ),
        (Stage::Deciding { target }, Event::Answered(answer)) => obeys(
            n,
            a,
            m,
            req,
            target@,
            answer,
            cancelled,
        ),
        (Stage::Running { outtmpl, force, attempt, retry }, Event::Ran(run)) => if tries_again(
            attempt as nat,
            run.code as int,
            run.logs@,
            cancelled,
        ) {
            let kind = failure_of(run.logs@)->0;
            &&& n == (Stage::Pausing {
                outtmpl,
                force,
                attempt: (attempt + 1) as u64,
                retry: retry_after(retry, kind),
                run,
            })
            &&& a is Pause
            &&& m == retry_said(attempt as nat, kind, req.lang)
        } else {
            ends(n, a, m, req, opt_text(outtmpl), run, cancelled)
        },
        (Stage::Running { outtmpl, force, attempt, retry }, Event::NotStarted(error)) => {
            &&& n is Over
            &&& a is Finish
            &&& m == not_run_said(opt_text(error), req.lang)
        },
        (Stage::Pausing { outtmpl, force, attempt, retry, run }, Event::Waited(whole)) => if whole {
            launches(n, a, m, req, opt_text(outtmpl), force, attempt as nat, retry)
        } else {
            ends(n, a, m, req, opt_text(outtmpl), run, cancelled)
        },
        (Stage::Locating { run, path }, Event::Looked(is_there)) => reports(
            n,
            a,
            m,
            req,
            run,
            if is_there {
                Some(path@)
            } else {
                None
            },
            cancelled,
        ),
        _ => n is Over && a is Finish && m.len() == 0,
    }
}

/// What is said when a run could not be started.
pub open spec fn not_run_said(error: Option<Seq<char>>, lang: Lang) -> Seq<Said> {
    match error {
        Some(e) => seq![
            Said::Log(Task::Download, filled(phrase(lang, "common.error"@), seq![e])),
            Said::Status(Task::Download, phrase(lang, "dlw.failed"@)),
        ],
        None => seq![Said::Status(Task::Download, phrase(lang, "dlw.failed"@))],
    }
}

// ---------------- the job ----------------

/// The next stage of a job, what is said and what is asked for.
type Turn = (Stage, Vec<UiMsg>, Action);

fn over(msgs: Vec<UiMsg>) -> (r: Turn)
    ensures
        r.0 is Over,
        r.1 == msgs,
        r.2 is Finish,
{
    (Stage::Over, msgs, Action::Finish)
}

impl Request {
    fn command(&self, outtmpl: Option<&str>, force: bool, retry: Retry) -> (r: Vec<String>)
        ensures
            is_command(texts(r@), *self, opt_str(outtmpl), force, retry),
            r@.len() > 0,
    {
        let attempt = Attempt { outtmpl, force_overwrite: force, retry };
        let cmd = build_download_cmd(
            self.program.as_str(),
            self.url.as_str(),
            self.out_dir.as_str(),
            self.quality.as_str(),
            &self.cookies,
            &self.opts,
            attempt,
        );
        proof {
            let target = choose|target: Seq<char>| #[trigger]
                is_target(target, opt_str(outtmpl), self.out_dir@, self.opts.playlist) && texts(
                    cmd@,
                ) == download_command(
                    self.program@,
                    self.url@,
                    lowered(self.url@),
                    target,
                    self.quality@,
                    opt_text(self.cookies),
                    self.opts,
                    force,
                    retry,
                );
            a_download_ends_with_its_url(
                self.program@,
                self.url@,
                lowered(self.url@),
                target,
                self.quality@,
                opt_text(self.cookies),
                self.opts,
                force,
                retry,
            );
            assert(texts(cmd@).len() == cmd@.len());
        }
        cmd
    }

    fn launch(&self, outtmpl: Option<String>, force: bool, attempt: u64, retry: Retry) -> (r: Turn)
        ensures
            launches(
                r.0,
                r.2,
                said(r.1@),
                *self,
                opt_text(outtmpl),
                force,
                attempt as nat,
                retry,
            ),
    {
        let cmd = match &outtmpl {
            Some(s) => self.command(Some(s.as_str()), force, retry),
            None => self.command(None, force, retry),
        };
        let mut msgs: Vec<UiMsg> = Vec::new();
        say_status(&mut msgs, Task::Download, t(self.lang, "status.downloading"));
        assert(said(msgs@) =~= seq![
            Said::Status(Task::Download, phrase(self.lang, "status.downloading"@)),
        ]);
        (Stage::Running { outtmpl, force, attempt, retry }, msgs, Action::Run(cmd))
    }

    fn pursue(&self, plan: Plan, cancelled: bool) -> (r: Turn)
        ensures
            pursues(r.0, r.2, said(r.1@), *self, plan, cancelled),
    {
        let mut msgs: Vec<UiMsg> = Vec::new();
        if let Some(line) = &plan.log {
            say_log(&mut msgs, Task::Download, line.as_str());
        }
        assert(said(msgs@) =~= plan_said(plan));
        let ghost head = msgs@;
        if plan.cancelled {
            let mut rest = report_not_started(cancelled, self.lang);
            let ghost tail = rest@;
            msgs.append(&mut rest);
            assert(said(msgs@) =~= said(head) + said(tail));
            return over(msgs);
        }
        let (stage, mut rest, action) = self.launch(
            plan.outtmpl,
            plan.force_overwrite,
            0,
            Retry::default(),
        );
        let ghost tail = rest@;
        msgs.append(&mut rest);
        assert(said(msgs@) =~= said(head) + said(tail));
        assert(said(msgs@).drop_last() =~= said(head));
        assert(seq![said(msgs@).last()] =~= said(tail));
        (stage, msgs, action)
    }

    fn use_name(&self, target: &str, free: &str, cancelled: bool) -> (r: Turn)
        ensures
            uses_name(r.0, r.2, said(r.1@), *self, target@, free@, cancelled),
    {
        if same(self.opts.conflict.as_str(), "rename") {
            let plan = renamed_plan(target, free, self.lang);
            let ghost p = plan;
            let r = self.pursue(plan, cancelled);
            assert(pursues(r.0, r.2, said(r.1@), *self, p, cancelled));
            return r;
        }
        let mut msgs: Vec<UiMsg> = Vec::new();
        say_status(&mut msgs, Task::Download, t(self.lang, "dlw.waiting_decision"));
        assert(said(msgs@) =~= seq![
            Said::Status(Task::Download, phrase(self.lang, "dlw.waiting_decision"@)),
        ]);
        let question = conflict_question(target, free);
        (Stage::Deciding { target: target.to_owned() }, msgs, Action::AskUser(question))
    }

    fn drop_download(&self, target: &str, cancelled: bool) -> (r: Turn)
        ensures
            exists|p: Plan| #[trigger]
                pursues(r.0, r.2, said(r.1@), *self, p, cancelled) && is_no_plan(p),
    {
        let plan = decided_plan(&None, target, self.lang);
        let ghost p = plan;
        let r = self.pursue(plan, cancelled);
        assert(pursues(r.0, r.2, said(r.1@), *self, p, cancelled));
        r
    }

    fn search(&self, target: &str, asked: &str, is_there: bool, tried: u64, cancelled: bool) -> (r:
        Turn)
        requires
            tried < u64::MAX,
        ensures
            searches(
                r.0,
                r.2,
                said(r.1@),
                *self,
                target@,
                asked@,
                is_there,
                tried as nat,
                cancelled,
            ),
    {
        if is_there && tried >= u64::MAX - 1 {
            return self.drop_download(target, cancelled);
        }
        let there = path_of(target);
        match unique_path(&there, path_of(asked), is_there, tried) {
            FreeName::Use(p) => self.use_name(target, path_text(&p).as_str(), cancelled),
            FreeName::Ask(copy) => {
                let p = path_text(&copy);
                assert(is_copy_in(p@, target@, (tried + 1) as nat, route_of(there).windows));
                let stage = Stage::Searching {
                    target: target.to_owned(),
                    asked: p.clone(),
                    tried: tried + 1,
                };
                (stage, Vec::new(), Action::Look(p))
            },
        }
    }

    fn report(&self, run: &Run, produced: &Option<String>, cancelled: bool) -> (r: Turn)
        ensures
            reports(r.0, r.2, said(r.1@), *self, *run, opt_text(*produced), cancelled),
    {
        over(
            report_ended(
                cancelled,
                run.code,
                run.skipped_existing,
                run.logs.as_str(),
                produced,
                self.tools.js_runtime.as_str(),
                self.lang,
            ),
        )
    }

    fn end(&self, outtmpl: &Option<String>, run: Run, cancelled: bool) -> (r: Turn)
        ensures
            ends(r.0, r.2, said(r.1@), *self, opt_text(*outtmpl), run, cancelled),
    {
        if run.produced.is_none() {
            if let Some(template) = outtmpl {
                let path = literal_path(template.as_str());
                let asked = path.clone();
                return (Stage::Locating { run, path }, Vec::new(), Action::Look(asked));
            }
        }
        self.report(&run, &run.produced, cancelled)
    }

    fn begin_quietly(&self, cancelled: bool) -> (r: Turn)
        ensures
            begins(r.0, r.2, said(r.1@), *self, cancelled),
    {
        if needs_anon_name(self.url.as_str()) {
            return (Stage::Naming, Vec::new(), Action::ListFolder);
        }
        if self.opts.playlist {
            let plan = playlist_plan(self.opts.conflict.as_str(), self.lang);
            let ghost p = plan;
            let r = self.pursue(plan, cancelled);
            assert(pursues(r.0, r.2, said(r.1@), *self, p, cancelled));
            return r;
        }
        match target_rule(self.opts.conflict.as_str()) {
            TargetStep::Settled(plan) => {
                let ghost p = plan;
                let r = self.pursue(plan, cancelled);
                assert(pursues(r.0, r.2, said(r.1@), *self, p, cancelled));
                r
            },
            _ => {
                let cmd = self.command(None, false, Retry::default());
                let probe = build_probe_cmd(&cmd);
                assert(is_command(texts(cmd@), *self, None, false, first_attempt()));
                let mut msgs: Vec<UiMsg> = Vec::new();
                say_status(&mut msgs, Task::Download, t(self.lang, "dlw.checking_target"));
                assert(said(msgs@) =~= seq![
                    Said::Status(Task::Download, phrase(self.lang, "dlw.checking_target"@)),
                ]);
                (Stage::Probing, msgs, Action::Probe(probe))
            },
        }
    }

    fn begin(&self, cancelled: bool) -> (r: Turn)
        ensures
            follows(r.0, Stage::Fresh, Event::Begin, said(r.1@), r.2, *self, cancelled),
    {
        let hints = preflight_hints(
            self.url.as_str(),
            self.quality.as_str(),
            &self.cookies,
            &self.opts,
            &self.tools,
            self.lang,
        );
        let mut msgs: Vec<UiMsg> = Vec::new();
        let ghost all = texts(hints@);
        assert(said(msgs@) =~= logged(all.take(0)));
        for i in 0..hints.len()
            invariant
                all == texts(hints@),
                said(msgs@) == logged(all.take(i as int)),
        {
            say_log(&mut msgs, Task::Download, hints[i].as_str());
            assert(all[i as int] == hints@[i as int]@);
            assert(said(msgs@) =~= logged(all.take(i + 1)));
        }
        assert(all.take(all.len() as int) =~= all);
        let ghost head = msgs@;
        let (stage, mut rest, action) = self.begin_quietly(cancelled);
        let ghost tail = rest@;
        msgs.append(&mut rest);
        assert(said(msgs@) =~= said(head) + said(tail));
        assert(said(msgs@).take(said(head).len() as int) =~= said(head));
        assert(said(msgs@).skip(said(head).len() as int) =~= said(tail));
        (stage, msgs, action)
    }

    fn draw_name(&self, names: &Vec<String>, draws: &Vec<u64>, now: u64, cancelled: bool) -> (r:
        Turn)
        requires
            is_anon_host(lowered(self.url@)),
        ensures
            draws_name(
                r.0,
                r.2,
                said(r.1@),
                *self,
                texts(names@),
                draws@,
                now as nat,
                cancelled,
            ),
    {
        let taken = taken_stems(names);
        match anon_outtmpl(self.url.as_str(), self.out_dir.as_str(), &taken, draws, now) {
            Some((tmpl, stem)) => {
                let plan = anon_plan(tmpl.as_str(), stem.as_str(), self.lang);
                let ghost p = plan;
                let r = self.pursue(plan, cancelled);
                assert(pursues(r.0, r.2, said(r.1@), *self, p, cancelled));
                proof {
                    if some_name_is_free(texts(taken@)) {
                        a_picked_name_is_free(texts(taken@), draws@, now as nat);
                    }
                    assert(are_stems(texts(taken@), texts(names@)));
                }
                r
            },
            None => over(Vec::new()),
        }
    }

    fn judge_target(&self, lines: &Vec<String>, cancelled: bool) -> (r: Turn)
        ensures
            judges_target(r.0, r.2, said(r.1@), *self, texts(lines@), cancelled),
    {
        let target = probed_target(lines, self.quality.as_str());
        assert(lines@.len() > 0 ==> texts(lines@).last() == lines@.last()@);
        assert(texts(lines@).len() == lines@.len());
        match target {
            Some(path) => {
                if !cancelled {
                    let asked = path.clone();
                    return (Stage::Checking { target: path }, Vec::new(), Action::Look(asked));
                }
                match after_probe(
                    self.opts.conflict.as_str(),
                    &Some(path),
                    true,
                    cancelled,
                    self.lang,
                ) {
                    TargetStep::Settled(plan) => {
                        let ghost p = plan;
                        let r = self.pursue(plan, cancelled);
                        assert(pursues(r.0, r.2, said(r.1@), *self, p, cancelled));
                        r
                    },
                    _ => over(Vec::new()),
                }
            },
            None => match after_probe(
                self.opts.conflict.as_str(),
                &None,
                false,
                cancelled,
                self.lang,
            ) {
                TargetStep::Settled(plan) => {
                    let ghost p = plan;
                    let r = self.pursue(plan, cancelled);
                    assert(pursues(r.0, r.2, said(r.1@), *self, p, cancelled));
                    r
                },
                _ => over(Vec::new()),
            },
        }
    }

    fn judge_conflict(&self, target: String, is_there: bool, cancelled: bool) -> (r: Turn)
        ensures
            judges_conflict(r.0, r.2, said(r.1@), *self, target@, is_there, cancelled),
    {
        if is_there {
            return self.search(target.as_str(), target.as_str(), true, 0, cancelled);
        }
        match after_probe(self.opts.conflict.as_str(), &Some(target), false, false, self.lang) {
            TargetStep::Settled(plan) => {
                let ghost p = plan;
                let r = self.pursue(plan, cancelled);
                assert(pursues(r.0, r.2, said(r.1@), *self, p, cancelled));
                r
            },
            _ => over(Vec::new()),
        }
    }

    fn obey(&self, target: &str, answer: Option<ConflictDecision>, cancelled: bool) -> (r: Turn)
        ensures
            obeys(r.0, r.2, said(r.1@), *self, target@, answer, cancelled),
    {
        let plan = decided_plan(&answer, target, self.lang);
        let ghost p = plan;
        let r = self.pursue(plan, cancelled);
        assert(pursues(r.0, r.2, said(r.1@), *self, p, cancelled));
        r
    }

    fn after(
        &self,
        outtmpl: Option<String>,
        force: bool,
        attempt: u64,
        retry: Retry,
        run: Run,
        cancelled: bool,
    ) -> (r: Turn)
        ensures
            follows(
                r.0,
                Stage::Running { outtmpl, force, attempt, retry },
                Event::Ran(run),
                said(r.1@),
                r.2,
                *self,
                cancelled,
            ),
    {
        match after_run(attempt, retry, run.code, run.logs.as_str(), cancelled, self.lang) {
            AfterRun::Again(next, msgs) => (
                Stage::Pausing { outtmpl, force, attempt: attempt + 1, retry: next, run },
                msgs,
                Action::Pause,
            ),
            AfterRun::Finish => self.end(&outtmpl, run, cancelled),
        }
    }
}

impl Job {
    /// A name is only drawn for an address that needs a neutral one, and copies
    /// are numbered by what a number holds.
    pub open spec fn wf(&self) -> bool {
        &&& self.stage is Naming ==> is_anon_host(lowered(self.request.url@))
        &&& self.stage matches Stage::Searching { target, asked, tried } ==> tried < u64::MAX
    }

    /// A job that has not begun.
    pub fn new(request: Request) -> (r: Job)
        ensures
            r.wf(),
            r.request == request,
            r.stage is Fresh,
    {
        Job { request, stage: Stage::Fresh }
    }

    /// Takes in what came of the last action; gives what is said and what is
    /// asked for next.
    pub fn step(&mut self, event: Event, cancelled: bool) -> (r: (Vec<UiMsg>, Action))
        requires
            old(self).wf(),
        ensures
            final(self).wf(),
            final(self).request == old(self).request,
            follows(
                final(self).stage,
                old(self).stage,
                event,
                said(r.0@),
                r.1,
                old(self).request,
                cancelled,
            ),
    {
        let mut stage = Stage::Over;
        std::mem::swap(&mut self.stage, &mut stage);
        let req = &self.request;
        let (next, msgs, action) = match (stage, event) {
            (Stage::Fresh, Event::Begin) => req.begin(cancelled),
            (Stage::Naming, Event::Folder { names, draws, now }) => req.draw_name(
                &names,
                &draws,
                now,
                cancelled,
            ),
            (Stage::Probing, Event::Printed(lines)) => req.judge_target(&lines, cancelled),
            (Stage::Checking { target }, Event::Looked(is_there)) => req.judge_conflict(
                target,
                is_there,
                cancelled,
            ),
            (Stage::Searching { target, asked, tried }, Event::Looked(is_there)) => req.search(
                target.as_str(),
                asked.as_str(),
                is_there,
                tried,
                cancelled,
            ),
            (Stage::Deciding { target }, Event::Answered(answer)) => req.obey(
                target.as_str(),
                answer,
                cancelled,
            ),
            (Stage::Running { outtmpl, force, attempt, retry }, Event::Ran(run)) => req.after(
                outtmpl,
                force,
                attempt,
                retry,
                run,
                cancelled,
            ),
            (
                Stage::Running { outtmpl, force, attempt, retry },
                Event::NotStarted(error),
            ) => match error {
                Some(e) => over(report_spawn_error(Some(e.as_str()), req.lang)),
                None => over(report_spawn_error(None, req.lang)),
            },
            (Stage::Pausing { outtmpl, force, attempt, retry, run }, Event::Waited(whole)) => {
                if whole {
                    req.launch(outtmpl, force, attempt, retry)
                } else {
                    req.end(&outtmpl, run, cancelled)
                }
            },
            (Stage::Locating { run, path }, Event::Looked(is_there)) => {
                let produced = if is_there {
                    Some(path)
                } else {
                    None
                };
                req.report(&run, &produced, cancelled)
            },
            _ => over(Vec::new()),
        };
        self.stage = next;
        (msgs, action)
    }
}

// ---------------- laws ----------------

/// The answer is one that a job at this stage asked for.
pub open spec fn was_asked_for(s: Stage, e: Event) -> bool {
    match (s, e) {
        (Stage::Fresh, Event::Begin) => true,
        (Stage::Naming, Event::Folder { names, draws, now }) => true,
        (Stage::Probing, Event::Printed(_)) => true,
        (Stage::Checking { target }, Event::Looked(_)) => true,
        (Stage::Searching { target, asked, tried }, Event::Looked(_)) => true,
        (Stage::Deciding { target }, Event::Answered(_)) => true,
        (Stage::Running { outtmpl, force, attempt, retry }, Event::Ran(_)) => true,
        (Stage::Running { outtmpl, force, attempt, retry }, Event::NotStarted(_)) => true,
        (Stage::Pausing { outtmpl, force, attempt, retry, run }, Event::Waited(_)) => true,
        (Stage::Locating { run, path }, Event::Looked(_)) => true,
        _ => false,
    }
}

/// No message tells the end of a download.
pub open spec fn no_verdict(m: Seq<Said>) -> bool {
    forall|i: int| 0 <= i < m.len() ==> !is_verdict(#[trigger] m[i])
}

/// The last message tells the end of a download, and no other does.
pub open spec fn ends_in_verdict(m: Seq<Said>) -> bool {
    m.len() > 0 && is_verdict(m.last()) && no_verdict(m.drop_last())
}

proof fn lemma_pursues(n: Stage, a: Action, m: Seq<Said>, req: Request, p: Plan, cancelled: bool)
    requires
        pursues(n, a, m, req, p, cancelled),
    ensures
        a is Finish ==> ends_in_verdict(m),
        !(a is Finish) ==> no_verdict(m) && n is Running,
{
    let head = plan_said(p);
    if p.cancelled {
        let tail = not_started_said(cancelled, req.lang);
        assert forall|i: int| 0 <= i < m.drop_last().len() implies !is_verdict(
            #[trigger] m.drop_last()[i],
        ) by {
            assert(m.drop_last()[i] == m[i]);
            if i < head.len() {
                assert(m[i] == head[i]);
            } else {
                assert(m[i] == tail[i - head.len()]);
            }
        }
        assert(m.last() == tail.last());
    } else {
        assert forall|i: int| 0 <= i < m.len() implies !is_verdict(#[trigger] m[i]) by {
            if i < m.len() - 1 {
                assert(m[i] == m.drop_last()[i]);
            } else {
                assert(seq![m.last()][0] == m.last());
            }
        }
    }
}

proof fn lemma_uses_name(
    n: Stage,
    a: Action,
    m: Seq<Said>,
    req: Request,
    target: Seq<char>,
    free: Seq<char>,
    cancelled: bool,
)
    requires
        uses_name(n, a, m, req, target, free, cancelled),
    ensures
        a is Finish ==> ends_in_verdict(m),
        !(a is Finish) ==> no_verdict(m) && (n is Running || n is Deciding),
{
    if req.opts.conflict@ == "rename"@ {
        let p = choose|p: Plan| #[trigger]
            pursues(n, a, m, req, p, cancelled) && !p.cancelled && !p.force_overwrite
                && p.outtmpl is Some && is_template_for(p.outtmpl->0@, free) && p.log is Some
                && names_files(p.log->0@, req.lang, "dlw.exists_saving_as"@, target, free);
        lemma_pursues(n, a, m, req, p, cancelled);
    }
}

proof fn lemma_ended(
    cancelled: bool,
    code: int,
    skipped: bool,
    logs: Seq<char>,
    produced: Option<Seq<char>>,
    js: Seq<char>,
    lang: Lang,
)
    ensures
        ends_in_verdict(ended_said(cancelled, code, skipped, logs, produced, js, lang)),
{
    let m = ended_said(cancelled, code, skipped, logs, produced, js, lang);
    every_end_is_told_once(cancelled, code, skipped, logs, produced, js, lang);
    assert forall|i: int| 0 <= i < m.drop_last().len() implies !is_verdict(
        #[trigger] m.drop_last()[i],
    ) by {
        assert(m.drop_last()[i] == m[i]);
    }
}

/// A job says that it is over when it is, with its last word, and not before.
/// The one exception is a run that could not be started: that says why, and the
/// queue takes the silence for a failure.
pub proof fn a_job_is_told_to_be_over_once(
    n: Stage,
    s: Stage,
    e: Event,
    m: Seq<Said>,
    a: Action,
    req: Request,
    cancelled: bool,
)
    requires
        follows(n, s, e, m, a, req, cancelled),
        was_asked_for(s, e),
        !(e is NotStarted),
    ensures
        a is Finish ==> ends_in_verdict(m),
        !(a is Finish) ==> no_verdict(m),
{
    match (s, e) {
        (Stage::Fresh, Event::Begin) => {
            let h = logged(hints_of(req));
            let rest = m.skip(h.len() as int);
            lemma_begins(n, a, rest, req, cancelled);
            assert forall|i: int| 0 <= i < m.len() && (i < m.len() - 1 || !(a is Finish)) implies !is_verdict(
                #[trigger] m[i],
            ) by {
                if i < h.len() {
                    assert(m[i] == m.take(h.len() as int)[i]);
                    assert(h[i] == Said::Log(Task::Download, hints_of(req)[i]));
                } else {
                    assert(m[i] == rest[i - h.len()]);
                    if a is Finish {
                        assert(rest.drop_last()[i - h.len()] == rest[i - h.len()]);
                    }
                }
            }
            if a is Finish {
                assert(m.last() == rest.last());
            }
        },
        (Stage::Naming, Event::Folder { names, draws, now }) => {
            let p = choose|p: Plan| #[trigger] pursues(n, a, m, req, p, cancelled);
            lemma_pursues(n, a, m, req, p, cancelled);
        },
        (Stage::Probing, Event::Printed(_)) => {
            if exists|p: Plan| #[trigger] pursues(n, a, m, req, p, cancelled) {
                let p = choose|p: Plan| #[trigger] pursues(n, a, m, req, p, cancelled);
                lemma_pursues(n, a, m, req, p, cancelled);
            }
        },
        (Stage::Checking { target }, Event::Looked(is_there)) => {
            if !is_there {
                let p = choose|p: Plan| #[trigger] pursues(n, a, m, req, p, cancelled);
                lemma_pursues(n, a, m, req, p, cancelled);
            }
        },
        (Stage::Searching { target, asked, tried }, Event::Looked(is_there)) => {
            if !is_there {
                lemma_uses_name(n, a, m, req, target@, asked@, cancelled);
            } else if exists|p: Plan| #[trigger] pursues(n, a, m, req, p, cancelled) {
                let p = choose|p: Plan| #[trigger] pursues(n, a, m, req, p, cancelled);
                lemma_pursues(n, a, m, req, p, cancelled);
            }
        },
        (Stage::Deciding { target }, Event::Answered(_)) => {
            let p = choose|p: Plan| #[trigger] pursues(n, a, m, req, p, cancelled);
            lemma_pursues(n, a, m, req, p, cancelled);
        },
        (Stage::Running { outtmpl, force, attempt, retry }, Event::Ran(run)) => {
            lemma_ended(
                cancelled,
                run.code as int,
                run.skipped_existing,
                run.logs@,
                opt_text(run.produced),
                req.tools.js_runtime@,
                req.lang,
            );
        },
        (Stage::Pausing { outtmpl, force, attempt, retry, run }, Event::Waited(_)) => {
            lemma_ended(
                cancelled,
                run.code as int,
                run.skipped_existing,
                run.logs@,
                opt_text(run.produced),
                req.tools.js_runtime@,
                req.lang,
            );
        },
        (Stage::Locating { run, path }, Event::Looked(is_there)) => {
            lemma_ended(
                cancelled,
                run.code as int,
                run.skipped_existing,
                run.logs@,
                if is_there {
                    Some(path@)
                } else {
                    None
                },
                req.tools.js_runtime@,
                req.lang,
            );
        },
        _ => {},
    }
}

proof fn lemma_begins(n: Stage, a: Action, m: Seq<Said>, req: Request, cancelled: bool)
    requires
        begins(n, a, m, req, cancelled),
    ensures
        a is Finish ==> ends_in_verdict(m),
        !(a is Finish) ==> no_verdict(m) && (n is Naming || n is Probing || n is Running),
{
    if exists|p: Plan| #[trigger] pursues(n, a, m, req, p, cancelled) {
        let p = choose|p: Plan| #[trigger] pursues(n, a, m, req, p, cancelled);
        lemma_pursues(n, a, m, req, p, cancelled);
    }
}

/// The counts that a job keeps are below their limits.
pub open spec fn in_limits(s: Stage) -> bool {
    match s {
        Stage::Searching { target, asked, tried } => tried < u64::MAX,
        Stage::Running { outtmpl, force, attempt, retry } => attempt < MAX_ATTEMPTS,
        Stage::Pausing { outtmpl, force, attempt, retry, run } => attempt < MAX_ATTEMPTS,
        _ => true,
    }
}

/// How far a job is from its end, at most.
pub open spec fn turns_left(s: Stage) -> int {
    match s {
        Stage::Over => 0,
        Stage::Locating { run, path } => 1,
        Stage::Running { outtmpl, force, attempt, retry } => 2 + 2 * (MAX_ATTEMPTS - attempt),
        Stage::Pausing { outtmpl, force, attempt, retry, run } => 3 + 2 * (MAX_ATTEMPTS - attempt),
        Stage::Deciding { target } => 4 + 2 * MAX_ATTEMPTS,
        Stage::Naming => 4 + 2 * MAX_ATTEMPTS,
        Stage::Searching { target, asked, tried } => 6 + 2 * MAX_ATTEMPTS + u64::MAX - tried,
        Stage::Checking { target } => 7 + 2 * MAX_ATTEMPTS + u64::MAX,
        Stage::Probing => 8 + 2 * MAX_ATTEMPTS + u64::MAX,
        Stage::Fresh => 9 + 2 * MAX_ATTEMPTS + u64::MAX,
    }
}

/// Every turn brings a job closer to its end: it is over after a bounded number
/// of them, whatever the world answers. A download is run three times at most.
pub proof fn every_job_comes_to_an_end(
    n: Stage,
    s: Stage,
    e: Event,
    m: Seq<Said>,
    a: Action,
    req: Request,
    cancelled: bool,
)
    requires
        follows(n, s, e, m, a, req, cancelled),
        in_limits(s),
        !(s is Over),
    ensures
        in_limits(n),
        0 <= turns_left(n) < turns_left(s),
        a is Finish <==> n is Over,
{
    if exists|p: Plan| #[trigger] pursues(n, a, m, req, p, cancelled) {
        let p = choose|p: Plan| #[trigger] pursues(n, a, m, req, p, cancelled);
        lemma_pursues(n, a, m, req, p, cancelled);
    }
    match (s, e) {
        (Stage::Fresh, Event::Begin) => {
            let rest = m.skip(logged(hints_of(req)).len() as int);
            lemma_begins(n, a, rest, req, cancelled);
            if exists|p: Plan| #[trigger] pursues(n, a, rest, req, p, cancelled) {
                let p = choose|p: Plan| #[trigger] pursues(n, a, rest, req, p, cancelled);
                lemma_pursues(n, a, rest, req, p, cancelled);
            }
        },
        _ => {},
    }
}

/// A run overwrites.
pub open spec fn overwrites(s: Stage) -> bool {
    match s {
        Stage::Running { outtmpl, force, attempt, retry } => force,
        Stage::Pausing { outtmpl, force, attempt, retry, run } => force,
        _ => false,
    }
}

/// Nothing is overwritten unasked: only the rule for existing files or the
/// answer of the user makes a run overwrite.
pub proof fn nothing_is_overwritten_unasked(
    n: Stage,
    s: Stage,
    e: Event,
    m: Seq<Said>,
    a: Action,
    req: Request,
    cancelled: bool,
)
    requires
        follows(n, s, e, m, a, req, cancelled),
        overwrites(n),
    ensures
        overwrites(s) || req.opts.conflict@ == "overwrite"@ || e matches Event::Answered(
            Some(ConflictDecision::Overwrite),
        ),
{
}

/// Once Stop was pressed no further run follows.
pub proof fn stop_ends_the_retries(
    n: Stage,
    s: Stage,
    run: Run,
    m: Seq<Said>,
    a: Action,
    req: Request,
)
    requires
        follows(n, s, Event::Ran(run), m, a, req, true),
    ensures
        n is Over || n is Locating,
        !(a is Run) && !(a is Pause),
{
}

/// A job begins as it was asked to: for a neutral name it needs the names in the
/// folder, a playlist and a rule that settles every conflict let it run at
/// once, and else it asks for the name of the file first.
pub proof fn a_job_begins_as_it_was_asked_to(
    n: Stage,
    m: Seq<Said>,
    a: Action,
    req: Request,
    cancelled: bool,
)
    requires
        follows(n, Stage::Fresh, Event::Begin, m, a, req, cancelled),
    ensures
        ({
            let neutral = within(lowered(req.url@), "instagram.com"@);
            let settled = req.opts.conflict@ == "overwrite"@ || req.opts.conflict@ == "skip"@;
            &&& neutral ==> a is ListFolder
            &&& !neutral && (req.opts.playlist || settled) ==> a is Run && (overwrites(n)
                <==> req.opts.conflict@ == "overwrite"@)
            &&& !neutral && !req.opts.playlist && !settled ==> a is Probe
        }),
{
    instagram_files_get_a_neutral_name(lowered(req.url@));
}

/// The user is obeyed: to overwrite runs over the file, a new name is what the
/// file is written under, and to skip ends the job.
pub proof fn the_user_is_obeyed(
    n: Stage,
    target: String,
    m: Seq<Said>,
    a: Action,
    req: Request,
    path: String,
    cancelled: bool,
)
    ensures
        follows(
            n,
            Stage::Deciding { target },
            Event::Answered(Some(ConflictDecision::Overwrite)),
            m,
            a,
            req,
            cancelled,
        ) ==> a is Run && overwrites(n),
        follows(
            n,
            Stage::Deciding { target },
            Event::Answered(Some(ConflictDecision::Rename(path))),
            m,
            a,
            req,
            cancelled,
        ) ==> a is Run && !overwrites(n) && (n matches Stage::Running { outtmpl, force, attempt, retry }
            && outtmpl is Some && is_template_for(outtmpl->0@, path@)),
        follows(
            n,
            Stage::Deciding { target },
            Event::Answered(Some(ConflictDecision::Skip)),
            m,
            a,
            req,
            cancelled,
        ) ==> a is Finish && m.last() is Finished,
        follows(n, Stage::Deciding { target }, Event::Answered(None), m, a, req, cancelled) ==> a
            is Finish && m.last() is Finished,
{
}

/// A target that is not there is downloaded to; beside one that is, the first
/// numbered copy is looked for, and a free name is used or offered as the rule
/// says.
pub proof fn a_taken_target_is_not_touched(
    n: Stage,
    target: String,
    asked: String,
    tried: u64,
    m: Seq<Said>,
    a: Action,
    req: Request,
    cancelled: bool,
)
    requires
        tried < u64::MAX - 1,
    ensures
        follows(n, Stage::Checking { target }, Event::Looked(false), m, a, req, cancelled) ==> a
            is Run && !overwrites(n),
        follows(n, Stage::Checking { target }, Event::Looked(true), m, a, req, cancelled) ==> a
            is Look && is_copy(a->Look_0@, target@, 1),
        follows(
            n,
            Stage::Searching { target, asked, tried },
            Event::Looked(true),
            m,
            a,
            req,
            cancelled,
        ) ==> a is Look && is_copy(a->Look_0@, target@, (tried + 1) as nat),
        req.opts.conflict@ == "rename"@ && follows(
            n,
            Stage::Searching { target, asked, tried },
            Event::Looked(false),
            m,
            a,
            req,
            cancelled,
        ) ==> a is Run && !overwrites(n) && (n matches Stage::Running {
            outtmpl,
            force,
            attempt,
            retry,
        } && outtmpl is Some && is_template_for(outtmpl->0@, asked@)),
        req.opts.conflict@ != "rename"@ && follows(
            n,
            Stage::Searching { target, asked, tried },
            Event::Looked(false),
            m,
            a,
            req,
            cancelled,
        ) ==> a is AskUser && a->AskUser_0.target@ == target@ && is_file_name(
            a->AskUser_0.suggestion@,
            asked@,
        ),
{
}

/// A run that failed for a passing reason is run again after a pause, gently and
/// from where it was, into the same file.
pub proof fn a_failed_run_is_run_again(
    mid: Stage,
    n: Stage,
    outtmpl: Option<String>,
    force: bool,
    attempt: u64,
    retry: Retry,
    run: Run,
    m: Seq<Said>,
    k: Seq<Said>,
    a: Action,
    b: Action,
    req: Request,
)
    requires
        run.code != 0,
        failure_of(run.logs@) is Some,
        attempt < 2,
        follows(
            mid,
            Stage::Running { outtmpl, force, attempt, retry },
            Event::Ran(run),
            m,
            a,
            req,
            false,
        ),
        follows(n, mid, Event::Waited(true), k, b, req, false),
    ensures
        a is Pause && b is Run,
        n matches Stage::Running { outtmpl: o, force: f, attempt: i, retry: r } && opt_text(o)
            == opt_text(outtmpl) && f == force && i == attempt + 1 && r.resume && r.low_concurrency
            && (r.safe_clients <==> retry.safe_clients || failure_of(run.logs@)->0 is Rejected),
{
}

/// A run that worked is not run again, and its file is the one that it named;
/// where it named none, the one that it was told to write, if that is there.
pub proof fn a_run_that_worked_is_reported(
    n: Stage,
    outtmpl: Option<String>,
    force: bool,
    attempt: u64,
    retry: Retry,
    run: Run,
    path: String,
    m: Seq<Said>,
    a: Action,
    req: Request,
)
    requires
        run.code == 0,
        !run.skipped_existing,
    ensures
        run.produced is Some && follows(
            n,
            Stage::Running { outtmpl, force, attempt, retry },
            Event::Ran(run),
            m,
            a,
            req,
            false,
        ) ==> a is Finish && m.last() == Said::Finished(
            Task::Download,
            End::Success(Some(run.produced->0@)),
        ),
        run.produced is None && outtmpl is Some && follows(
            n,
            Stage::Running { outtmpl, force, attempt, retry },
            Event::Ran(run),
            m,
            a,
            req,
            false,
        ) ==> a is Look && a->Look_0@ == literal_of(outtmpl->0@),
        follows(n, Stage::Locating { run, path }, Event::Looked(true), m, a, req, false) ==> a
            is Finish && m.last() == Said::Finished(Task::Download, End::Success(Some(path@))),
        follows(n, Stage::Locating { run, path }, Event::Looked(false), m, a, req, false) ==> a
            is Finish && m.last() == Said::Finished(Task::Download, End::Success(None)),
{
}

/// A target is asked after under the name that the probe printed last; a probe
/// without a name lets the download run.
pub proof fn the_last_printed_name_is_the_target(
    n: Stage,
    lines: Vec<String>,
    m: Seq<Said>,
    a: Action,
    req: Request,
)
    requires
        follows(n, Stage::Probing, Event::Printed(lines), m, a, req, false),
    ensures
        lines@.len() == 0 ==> a is Run && !overwrites(n),
        lines@.len() > 0 ==> a is Look && is_probed(a->Look_0@, lines@.last()@, req.quality@),
{
    if lines@.len() > 0 {
        assert(texts(lines@).last() == lines@.last()@);
    }
}

/// A program that could not be run is told with the reason, and has failed.
pub proof fn a_program_that_does_not_run_is_told(error: Seq<char>, lang: Lang)
    ensures
        not_run_said(Some(error), lang) == seq![
            Said::Log(Task::Download, filled(phrase(lang, "common.error"@), seq![error])),
            Said::Status(Task::Download, phrase(lang, "dlw.failed"@)),
        ],
        not_run_said(None, lang) == seq![
            Said::Status(Task::Download, phrase(lang, "dlw.failed"@)),
        ],
{
}

proof fn lemma_plan_is_told(
    n: Stage,
    a: Action,
    m: Seq<Said>,
    req: Request,
    p: Plan,
    cancelled: bool,
)
    requires
        pursues(n, a, m, req, p, cancelled),
        !p.cancelled,
        p.log is Some,
    ensures
        m.len() == 2,
        m[0] == Said::Log(Task::Download, p.log->0@),
{
    let d = m.drop_last();
    assert(d == plan_said(p));
    assert(d.len() == 1);
    assert(d[0] == m[0]);
}

/// What a job does about a target is told in the log, each with its own words.
pub proof fn a_decision_is_told_with_its_words(
    n: Stage,
    target: String,
    asked: String,
    tried: u64,
    m: Seq<Said>,
    a: Action,
    req: Request,
    path: String,
    cancelled: bool,
)
    ensures
        follows(
            n,
            Stage::Deciding { target },
            Event::Answered(Some(ConflictDecision::Overwrite)),
            m,
            a,
            req,
            cancelled,
        ) ==> m.len() == 2 && m[0] is Log && names_file(
            m[0]->Log_1,
            req.lang,
            "dlw.overwriting"@,
            target@,
        ),
        follows(
            n,
            Stage::Deciding { target },
            Event::Answered(Some(ConflictDecision::Rename(path))),
            m,
            a,
            req,
            cancelled,
        ) ==> m.len() == 2 && m[0] is Log && names_file(
            m[0]->Log_1,
            req.lang,
            "dlw.saving_as"@,
            path@,
        ),
        follows(n, Stage::Checking { target }, Event::Looked(false), m, a, req, cancelled)
            ==> m.len() == 2 && m[0] is Log && names_file(
            m[0]->Log_1,
            req.lang,
            "dlw.target_file"@,
            target@,
        ),
        req.opts.conflict@ == "rename"@ && follows(
            n,
            Stage::Searching { target, asked, tried },
            Event::Looked(false),
            m,
            a,
            req,
            cancelled,
        ) ==> m.len() == 2 && m[0] is Log && names_files(
            m[0]->Log_1,
            req.lang,
            "dlw.exists_saving_as"@,
            target@,
            asked@,
        ),
        req.opts.conflict@ != "rename"@ && follows(
            n,
            Stage::Searching { target, asked, tried },
            Event::Looked(false),
            m,
            a,
            req,
            cancelled,
        ) ==> m == seq![Said::Status(Task::Download, phrase(req.lang, "dlw.waiting_decision"@))],
{
    if follows(
        n,
        Stage::Deciding { target },
        Event::Answered(Some(ConflictDecision::Overwrite)),
        m,
        a,
        req,
        cancelled,
    ) {
        let p = choose|p: Plan| #[trigger]
            pursues(n, a, m, req, p, cancelled) && !p.cancelled && p.log is Some && names_file(
                p.log->0@,
                req.lang,
                "dlw.overwriting"@,
                target@,
            );
        lemma_plan_is_told(n, a, m, req, p, cancelled);
    }
    if follows(
        n,
        Stage::Deciding { target },
        Event::Answered(Some(ConflictDecision::Rename(path))),
        m,
        a,
        req,
        cancelled,
    ) {
        let p = choose|p: Plan| #[trigger]
            pursues(n, a, m, req, p, cancelled) && !p.cancelled && p.log is Some && names_file(
                p.log->0@,
                req.lang,
                "dlw.saving_as"@,
                path@,
            );
        lemma_plan_is_told(n, a, m, req, p, cancelled);
    }
    if follows(n, Stage::Checking { target }, Event::Looked(false), m, a, req, cancelled) {
        let p = choose|p: Plan| #[trigger]
            pursues(n, a, m, req, p, cancelled) && !p.cancelled && p.log is Some && names_file(
                p.log->0@,
                req.lang,
                "dlw.target_file"@,
                target@,
            );
        lemma_plan_is_told(n, a, m, req, p, cancelled);
    }
    if req.opts.conflict@ == "rename"@ && follows(
        n,
        Stage::Searching { target, asked, tried },
        Event::Looked(false),
        m,
        a,
        req,
        cancelled,
    ) {
        let p = choose|p: Plan| #[trigger]
            pursues(n, a, m, req, p, cancelled) && !p.cancelled && p.log is Some && names_files(
                p.log->0@,
                req.lang,
                "dlw.exists_saving_as"@,
                target@,
                asked@,
            );
        lemma_plan_is_told(n, a, m, req, p, cancelled);
    }
}

/// How a job begins is told: that the whole list is loaded, or that the target
/// is looked for. A probe without a name is told too.
pub proof fn a_beginning_is_told_with_its_words(
    n: Stage,
    m: Seq<Said>,
    a: Action,
    req: Request,
    cancelled: bool,
    lines: Vec<String>,
)
    ensures
        begins(n, a, m, req, cancelled) && !within(lowered(req.url@), "instagram.com"@)
            && req.opts.playlist ==> m.len() == 2 && m[0] == Said::Log(
            Task::Download,
            phrase(req.lang, "dlw.playlist_mode"@),
        ),
        begins(n, a, m, req, cancelled) && a is Probe ==> m == seq![
            Said::Status(Task::Download, phrase(req.lang, "dlw.checking_target"@)),
        ],
        lines@.len() == 0 && follows(
            n,
            Stage::Probing,
            Event::Printed(lines),
            m,
            a,
            req,
            false,
        ) ==> m.len() == 2 && m[0] == Said::Log(
            Task::Download,
            phrase(req.lang, "dlw.no_target_name"@),
        ),
{
    instagram_files_get_a_neutral_name(lowered(req.url@));
    if begins(n, a, m, req, cancelled) && !within(lowered(req.url@), "instagram.com"@)
        && req.opts.playlist {
        let p = choose|p: Plan| #[trigger]
            pursues(n, a, m, req, p, cancelled) && !p.cancelled && opt_text(p.log) == Some(
                phrase(req.lang, "dlw.playlist_mode"@),
            );
        lemma_plan_is_told(n, a, m, req, p, cancelled);
    }
    if lines@.len() == 0 && follows(n, Stage::Probing, Event::Printed(lines), m, a, req, false) {
        let p = choose|p: Plan| #[trigger]
            pursues(n, a, m, req, p, false) && !p.cancelled && opt_text(p.log) == Some(
                phrase(req.lang, "dlw.no_target_name"@),
            );
        lemma_plan_is_told(n, a, m, req, p, false);
    }
}

/// A neutral name is drawn beside the names in the folder, and the file is
/// written under it.
pub proof fn a_neutral_name_is_drawn(
    n: Stage,
    names: Vec<String>,
    draws: Vec<u64>,
    now: u64,
    m: Seq<Said>,
    a: Action,
    req: Request,
    cancelled: bool,
)
    requires
        follows(n, Stage::Naming, Event::Folder { names, draws, now }, m, a, req, cancelled),
    ensures
        a is Run && !overwrites(n),
        exists|k: nat|
            {
                &&& m[0] == Said::Log(
                    Task::Download,
                    filled(phrase(req.lang, "dlw.anon_name"@), seq!["video-"@ + #[trigger] dec(k)]),
                )
                &&& n matches Stage::Running { outtmpl, force, attempt, retry } && outtmpl is Some
                    && joins(
                    outtmpl->0@,
                    escaped(req.out_dir@),
                    "video-"@ + dec(k) + ".%(ext)s"@,
                )
            },
{
    let (p, taken) = choose|p: Plan, taken: Seq<Seq<char>>|
        {
            let stem = anon_name(anon_number(taken, draws@, now as nat));
            &&& #[trigger] pursues(n, a, m, req, p, cancelled)
            &&& #[trigger] are_stems(taken, texts(names@))
            &&& !p.cancelled && !p.force_overwrite && p.outtmpl is Some && p.log is Some
            &&& joins(p.outtmpl->0@, escaped(req.out_dir@), stem + ".%(ext)s"@)
            &&& p.log->0@ == filled(phrase(req.lang, "dlw.anon_name"@), seq![stem])
            &&& some_name_is_free(taken) ==> is_unused(stem, texts(names@))
        };
    lemma_plan_is_told(n, a, m, req, p, cancelled);
    let k = anon_number(taken, draws@, now as nat);
    assert(anon_name(k) == "video-"@ + dec(k));
    assert(m[0] == Said::Log(
        Task::Download,
        filled(phrase(req.lang, "dlw.anon_name"@), seq!["video-"@ + dec(k)]),
    ));
}

} // verus!
