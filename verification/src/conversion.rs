//! Conversion runs: what is logged before one, what its progress tells, and how
//! it ends.

use crate::convert::{effective_start, section_len, start_or_zero, ConvertParams, Profile};
use crate::dict::Dict;
use crate::i18n::{filled, phrase, t, tf, Lang};
use crate::number::{
    a_signed_number_reads_back, align_right, clamp, clamped, dec2, i64_text, int_dec, parse_i64,
    right_aligned, signed_of,
};
use crate::probe::{key_value, split_key_value};
use crate::text::{
    contains, is_at, join, joined, lemma_one_piece, lemma_trimmed_stays, opt_str, opt_text,
    push_string, push_text, same, strs, texts, trim, trimmed, within,
};
use crate::types::{
    said, say, say_log, say_status, say_toast, Bar, End, Outcome, Progress, Said, Task, UiMsg,
};
use crate::util::{
    a_clock_reads_back, capped, clock_text, format_clock, format_elapsed, hms_parts, hms_value,
    parse_hms_to_seconds, pointed, whole_seconds, NANOS,
};
use vstd::prelude::*;

verus! {

// ---------------- the length of a run ----------------

/// The smaller of two numbers.
pub open spec fn smaller(a: int, b: int) -> int {
    if a < b {
        a
    } else {
        b
    }
}

/// How much of a source of length `total` a run writes. Progress is measured
/// against that, so a trimmed conversion has to count against the section, not
/// the source.
pub open spec fn run_length(total: int, start: Option<u64>, length: Option<u64>) -> int {
    let from = smaller(
        match start {
            Some(s) => s as int,
            None => 0,
        },
        total,
    );
    match length {
        Some(d) => smaller(d as int, total - from),
        None => total - from,
    }
}

/// How much of a source of length `total` a profile writes.
pub fn section_duration(total: i64, profile: &Profile) -> (r: i64)
    ensures
        r == run_length(total as int, profile.trim_start, profile.trim_duration),
{
    let start: i128 = match profile.trim_start {
        Some(s) => s as i128,
        None => 0,
    };
    let from: i128 = if start < total as i128 {
        start
    } else {
        total as i128
    };
    let rest: i128 = total as i128 - from;
    match profile.trim_duration {
        Some(d) => if (d as i128) < rest {
            d as i64
        } else {
            rest as i64
        },
        None => rest as i64,
    }
}

// ---------------- before a run ----------------

/// A run of dashes that closes the head of a log.
pub const RULE: &'static str = "--------------------------------------------";

/// How the quality is chosen, in words.
pub open spec fn mode_text(p: Profile, lang: Lang) -> Seq<char> {
    if p.use_custom {
        filled(phrase(lang, "cvw.mode_custom"@), seq![int_dec(p.custom_br as int)])
    } else {
        filled(phrase(lang, "cvw.mode_crf"@), seq![int_dec(p.crf as int)])
    }
}

/// What is logged of the codec.
pub open spec fn codec_lines(p: Profile, lang: Lang) -> Seq<Seq<char>> {
    if p.audio_only {
        seq![filled(phrase(lang, "cvw.codec_audio"@), seq![p.codec_key@, p.audio_codec@])]
    } else {
        seq![filled(phrase(lang, "cvw.codec"@), seq![p.codec_key@, p.video_codec@])] + (
        if p.hw_requested@ == "auto"@ {
            seq![filled(phrase(lang, "cvw.hw_auto"@), seq![p.hw_resolved@])]
        } else {
            seq![]
        }) + seq![filled(phrase(lang, "cvw.mode"@), seq![mode_text(p, lang)])]
    }
}

/// A line of the wording of `key` with one argument put in.
fn push_filled(out: &mut Vec<String>, lang: Lang, key: &'static str, arg: &str)
    ensures
        texts(final(out)@) == texts(old(out)@).push(filled(phrase(lang, key@), seq![arg@])),
{
    let args = [arg];
    let text = tf(lang, key, &args);
    assert(strs(args@) =~= seq![arg@]);
    push_string(out, text);
}

/// A line of the wording of `key` with two arguments put in.
fn push_filled2(out: &mut Vec<String>, lang: Lang, key: &'static str, a: &str, b: &str)
    ensures
        texts(final(out)@) == texts(old(out)@).push(filled(phrase(lang, key@), seq![a@, b@])),
{
    let args = [a, b];
    let text = tf(lang, key, &args);
    assert(strs(args@) =~= seq![a@, b@]);
    push_string(out, text);
}

fn push_codec(out: &mut Vec<String>, p: &Profile, lang: Lang)
    ensures
        texts(final(out)@) == texts(old(out)@) + codec_lines(*p, lang),
{
    if p.audio_only {
        push_filled2(
            out,
            lang,
            "cvw.codec_audio",
            p.codec_key.as_str(),
            p.audio_codec.as_str(),
        );
    } else {
        push_filled2(out, lang, "cvw.codec", p.codec_key.as_str(), p.video_codec.as_str());
        if same(p.hw_requested.as_str(), "auto") {
            push_filled(out, lang, "cvw.hw_auto", p.hw_resolved.as_str());
        }
        let mode = if p.use_custom {
            let n = i64_text(p.custom_br as i64);
            let args = [n.as_str()];
            assert(strs(args@) =~= seq![int_dec(p.custom_br as int)]);
            tf(lang, "cvw.mode_custom", &args)
        } else {
            let n = i64_text(p.crf as i64);
            let args = [n.as_str()];
            assert(strs(args@) =~= seq![int_dec(p.crf as int)]);
            tf(lang, "cvw.mode_crf", &args)
        };
        push_filled(out, lang, "cvw.mode", mode.as_str());
    }
    assert(texts(out@) =~= texts(old(out)@) + codec_lines(*p, lang));
}

/// An entry of a map as "key=value".
pub open spec fn entry_text(e: (Seq<char>, Seq<char>)) -> Seq<char> {
    e.0 + "="@ + e.1
}

/// The entries of a map, in order.
pub open spec fn entry_texts(d: Dict) -> Seq<Seq<char>> {
    d.pairs().map_values(|e: (Seq<char>, Seq<char>)| entry_text(e))
}

fn entry_list(d: &Dict) -> (r: Vec<String>)
    ensures
        texts(r@) == entry_texts(*d),
{
    let mut out: Vec<String> = Vec::new();
    let n = d.len();
    for i in 0..n
        invariant
            n == d.pairs().len(),
            texts(out@) == entry_texts(*d).take(i as int),
    {
        let (k, v) = d.entry(i);
        let mut s = k.to_owned();
        s.append("=");
        s.append(v);
        push_string(&mut out, s);
        assert(texts(out@) =~= entry_texts(*d).take(i + 1));
    }
    assert(entry_texts(*d).take(n as int) =~= entry_texts(*d));
    out
}

/// What is logged of the source.
pub open spec fn source_lines(
    pix_fmt: Option<Seq<char>>,
    meta: Dict,
    duration: Option<Seq<char>>,
    lang: Lang,
) -> Seq<Seq<char>> {
    (match pix_fmt {
        Some(p) => seq![filled(phrase(lang, "cvw.source"@), seq![p])],
        None => seq![],
    }) + (if meta.pairs().len() > 0 {
        seq![filled(phrase(lang, "cvw.color"@), seq![joined(entry_texts(meta), ", "@)])]
    } else {
        seq![]
    }) + (match duration {
        Some(d) => seq![filled(phrase(lang, "cvw.duration"@), seq![d])],
        None => seq![],
    })
}

fn push_source(
    out: &mut Vec<String>,
    pix_fmt: Option<&str>,
    meta: &Dict,
    duration: Option<&str>,
    lang: Lang,
)
    ensures
        texts(final(out)@) == texts(old(out)@) + source_lines(
            opt_str(pix_fmt),
            *meta,
            opt_str(duration),
            lang,
        ),
{
    if let Some(p) = pix_fmt {
        push_filled(out, lang, "cvw.source", p);
    }
    if !meta.is_empty() {
        let list = join(&entry_list(meta), ", ");
        push_filled(out, lang, "cvw.color", list.as_str());
    }
    if let Some(d) = duration {
        push_filled(out, lang, "cvw.duration", d);
    }
    assert(texts(out@) =~= texts(old(out)@) + source_lines(
        opt_str(pix_fmt),
        *meta,
        opt_str(duration),
        lang,
    ));
}

/// A part of the source is cut away.
pub open spec fn is_cut(params: ConvertParams) -> bool {
    effective_start(params.trim_start) is Some || section_len(
        params.trim_start,
        params.trim_end,
    ) is Some
}

/// The end of a section in words.
pub open spec fn end_text(end: Option<i64>, lang: Lang) -> Seq<char> {
    match end {
        Some(e) => clock_text(whole_seconds(e as int)),
        None => phrase(lang, "cv.trim_end_of_file"@),
    }
}

/// What is logged of the cut.
pub open spec fn trim_lines(params: ConvertParams, lang: Lang) -> Seq<Seq<char>> {
    if is_cut(params) {
        seq![
            filled(
                phrase(lang, "cvw.trim"@),
                seq![
                    clock_text(whole_seconds(start_or_zero(params.trim_start))),
                    end_text(params.trim_end, lang),
                ],
            ),
        ]
    } else {
        seq![]
    }
}

/// The end of a section in words.
pub fn section_end(end: Option<i64>, lang: Lang) -> (r: String)
    ensures
        r@ == end_text(end, lang),
{
    match end {
        Some(e) => format_clock(e),
        None => t(lang, "cv.trim_end_of_file").to_owned(),
    }
}

/// The head of the log of a conversion. `duration` is how many seconds the run
/// writes, in words.
pub fn head_lines(
    profile: &Profile,
    pix_fmt: Option<&str>,
    meta: &Dict,
    duration: Option<&str>,
    params: &ConvertParams,
    lang: Lang,
) -> (r: Vec<String>)
    ensures
        texts(r@) == codec_lines(*profile, lang) + source_lines(
            opt_str(pix_fmt),
            *meta,
            opt_str(duration),
            lang,
        ) + trim_lines(*params, lang) + seq![RULE@],
{
    let mut out: Vec<String> = Vec::new();
    push_codec(&mut out, profile, lang);
    assert(texts(out@) =~= codec_lines(*profile, lang));
    push_source(&mut out, pix_fmt, meta, duration, lang);
    let ghost before = texts(out@);
    if params.has_trim() {
        let start: i64 = match params.trim_start {
            Some(s) => s,
            None => 0,
        };
        let from = format_clock(start);
        let to = section_end(params.trim_end, lang);
        push_filled2(&mut out, lang, "cvw.trim", from.as_str(), to.as_str());
    }
    assert(texts(out@) =~= before + trim_lines(*params, lang));
    push_text(&mut out, RULE);
    assert(texts(out@) =~= before + trim_lines(*params, lang) + seq![RULE@]);
    out
}

// ---------------- while it runs ----------------

/// What is logged of a line that ffmpeg printed.
pub open spec fn told_line(line: Seq<char>) -> Option<Seq<char>> {
    if line.len() > 0 && !within(line, "Press [q]"@) {
        Some(line)
    } else {
        None
    }
}

/// The line of ffmpeg's own log to show, if it is one: not empty, and not the
/// hint at a keyboard that is not there.
pub fn stderr_line(line: &str) -> (r: Option<String>)
    ensures
        opt_text(r) == told_line(trimmed(line@)),
{
    let l = trim(line);
    if !l.as_str().is_empty() && !contains(l.as_str(), "Press [q]") {
        Some(l)
    } else {
        None
    }
}

/// What is known of the progress of a run.
#[derive(Debug)]
pub struct ProgressState {
    /// The values ffmpeg told last, by their keys.
    pub values: Dict,
    /// The line that was shown last.
    pub last_line: String,
}

impl ProgressState {
    pub fn new() -> (r: ProgressState)
        ensures
            r.values.wf(),
            forall|k: Seq<char>| r.values.at(k) is None,
            r.last_line@ == Seq::<char>::empty(),
    {
        ProgressState { values: Dict::new(), last_line: String::new() }
    }
}

/// What stands under a key, or something in its place.
pub open spec fn value_or(d: Dict, key: Seq<char>, other: Seq<char>) -> Seq<char> {
    match d.at(key) {
        Some(v) => v,
        None => other,
    }
}

fn get_or(d: &Dict, key: &str, other: &str) -> (r: String)
    requires
        d.wf(),
    ensures
        r@ == value_or(*d, key@, other@),
{
    match d.get(key) {
        Some(v) => v.to_owned(),
        None => other.to_owned(),
    }
}

/// A whole number of 1024 bytes, the rest cut off.
pub open spec fn kibibytes(n: int) -> int {
    if n < 0 {
        -((-n) / 1024)
    } else {
        n / 1024
    }
}

/// A size in bytes as ffmpeg reports it, in kibibytes.
pub open spec fn size_text(total: Seq<char>) -> Seq<char> {
    match signed_of(total) {
        Some(n) => int_dec(kibibytes(n)) + " KiB"@,
        None => "0 KiB"@,
    }
}

fn size_in_kib(total: &str) -> (r: String)
    ensures
        r@ == size_text(total@),
{
    match parse_i64(total) {
        Some(n) => {
            let k: i64 = if n < 0 {
                let m: i128 = -(n as i128);
                (-(m / 1024)) as i64
            } else {
                n / 1024
            };
            let mut s = i64_text(k);
            s.append(" KiB");
            s
        },
        None => "0 KiB".to_owned(),
    }
}

/// The time that has passed, cut to hundredths of a second.
pub open spec fn elapsed_text(ns: int) -> Seq<char> {
    if ns < 0 {
        "0:00:00.00"@
    } else {
        clock_text((ns / NANOS as int) as nat).push('.') + dec2(
            ((ns % NANOS as int) / 10_000_000) as nat,
        )
    }
}

/// The progress of a run in one line.
pub open spec fn compact_line(d: Dict, elapsed: int) -> Seq<char> {
    "frame="@ + right_aligned(value_or(d, "frame"@, "?"@), 5) + " fps="@ + value_or(
        d,
        "fps"@,
        "N/A"@,
    ) + " q="@ + value_or(d, "stream_0_0_q"@, "?"@) + " size="@ + right_aligned(
        size_text(value_or(d, "total_size"@, "0"@)),
        9,
    ) + " time="@ + value_or(d, "out_time"@, "00:00:00.00"@) + " bitrate="@ + value_or(
        d,
        "bitrate"@,
        "N/A"@,
    ) + " speed="@ + value_or(d, "speed"@, "N/A"@) + " elapsed="@ + elapsed_text(elapsed)
}

fn compact(d: &Dict, elapsed: i64) -> (r: String)
    requires
        d.wf(),
    ensures
        r@ == compact_line(*d, elapsed as int),
{
    let frame = get_or(d, "frame", "?");
    let size = size_in_kib(get_or(d, "total_size", "0").as_str());
    let mut s = "frame=".to_owned();
    s.append(align_right(frame.as_str(), 5).as_str());
    s.append(" fps=");
    s.append(get_or(d, "fps", "N/A").as_str());
    s.append(" q=");
    s.append(get_or(d, "stream_0_0_q", "?").as_str());
    s.append(" size=");
    s.append(align_right(size.as_str(), 9).as_str());
    s.append(" time=");
    s.append(get_or(d, "out_time", "00:00:00.00").as_str());
    s.append(" bitrate=");
    s.append(get_or(d, "bitrate", "N/A").as_str());
    s.append(" speed=");
    s.append(get_or(d, "speed", "N/A").as_str());
    s.append(" elapsed=");
    s.append(format_elapsed(elapsed).as_str());
    s
}

/// The nanoseconds of a count that ffmpeg gives in millionths of a second, or,
/// where it is small, in thousandths.
pub open spec fn counted(n: int) -> int {
    if n > 10_000_000 {
        clamped(n * 1000)
    } else {
        clamped(n * 1_000_000)
    }
}

/// How far the output of a run reaches, as far as ffmpeg tells: by its clock,
/// else by its count.
pub open spec fn out_time_of(d: Dict) -> Option<int> {
    match hms_parts(value_or(d, "out_time"@, ""@)) {
        Some((h, m, s)) => Some(capped(hms_value(h, m, s))),
        None => {
            let raw = match d.at("out_time_us"@) {
                Some(v) => Some(v),
                None => d.at("out_time_ms"@),
            };
            match raw {
                Some(v) => match signed_of(v) {
                    Some(n) => Some(counted(n)),
                    None => None,
                },
                None => None,
            }
        },
    }
}

fn count_to_nanos(n: i64) -> (r: i64)
    ensures
        r == counted(n as int),
{
    let wide: i128 = if n > 10_000_000 {
        n as i128 * 1000
    } else {
        n as i128 * 1_000_000
    };
    clamp(wide)
}

/// The contents of an optional signed number.
pub open spec fn opt_signed(o: Option<i64>) -> Option<int> {
    match o {
        Some(n) => Some(n as int),
        None => None,
    }
}

/// How far the output of a run reaches, in nanoseconds.
pub fn parse_out_time(progress: &Dict) -> (r: Option<i64>)
    requires
        progress.wf(),
    ensures
        opt_signed(r) == out_time_of(*progress),
{
    let clock = get_or(progress, "out_time", "");
    if let Some(ns) = parse_hms_to_seconds(clock.as_str()) {
        return Some(ns);
    }
    let raw = match progress.get("out_time_us") {
        Some(v) => Some(v),
        None => progress.get("out_time_ms"),
    };
    match raw {
        Some(v) => match parse_i64(v) {
            Some(n) => Some(count_to_nanos(n)),
            None => None,
        },
        None => None,
    }
}

/// How far a run has come.
#[derive(Debug)]
pub struct ProgressReport {
    /// A line for the log, unless it repeats the last one.
    pub log: Option<String>,
    /// How far the output reaches, in nanoseconds, if that is known.
    pub reached: Option<i64>,
    pub bitrate: String,
    pub speed: String,
    pub fps: String,
    /// This was the last report.
    pub end: bool,
}

/// Where the output stands, by everything that tells it.
pub open spec fn reached_of(d: Dict) -> Option<int> {
    match out_time_of(d) {
        Some(n) => Some(n),
        None => match hms_parts(value_or(d, "out_time"@, "00:00:00.00"@)) {
            Some((h, m, s)) => Some(capped(hms_value(h, m, s))),
            None => None,
        },
    }
}

/// `after` holds what `before` did, and `value` under `key`.
pub open spec fn is_inserted(after: Dict, before: Dict, key: Seq<char>, value: Seq<char>) -> bool {
    &&& after.wf()
    &&& after.at(key) == Some(value)
    &&& forall|k: Seq<char>| k != key ==> #[trigger] after.at(k) == before.at(k)
}

/// `r` reports the values `d`, after `last` was shown.
pub open spec fn is_report(
    r: ProgressReport,
    d: Dict,
    last: Seq<char>,
    elapsed: int,
    value: Seq<char>,
) -> bool {
    &&& opt_text(r.log) == (if compact_line(d, elapsed) != last {
        Some(compact_line(d, elapsed))
    } else {
        None
    })
    &&& opt_signed(r.reached) == reached_of(d)
    &&& r.bitrate@ == value_or(d, "bitrate"@, "N/A"@)
    &&& r.speed@ == value_or(d, "speed"@, "N/A"@)
    &&& r.fps@ == value_or(d, "fps"@, "N/A"@)
    &&& r.end == (value == "end"@)
}

/// Takes in a line of ffmpeg's progress. ffmpeg tells its values one by one and
/// closes each round with the key "progress", which gives rise to a report.
pub fn on_progress_line(state: &mut ProgressState, line: &str, elapsed: i64) -> (r: Option<
    ProgressReport,
>)
    requires
        old(state).values.wf(),
    ensures
        final(state).values.wf(),
        match key_value(trimmed(line@)) {
            Some((k, v)) => {
                &&& is_inserted(final(state).values, old(state).values, k, v)
                &&& r is Some == (k == "progress"@)
                &&& r is Some ==> is_report(
                    r->0,
                    final(state).values,
                    old(state).last_line@,
                    elapsed as int,
                    v,
                )
                &&& final(state).last_line@ == (if k == "progress"@ {
                    compact_line(final(state).values, elapsed as int)
                } else {
                    old(state).last_line@
                })
            },
            None => r is None && *final(state) == *old(state),
        },
{
    let l = trim(line);
    match split_key_value(l.as_str()) {
        None => None,
        Some((key, val)) => {
            state.values.insert(key.as_str(), val.as_str());
            if !same(key.as_str(), "progress") {
                return None;
            }
            let d = &state.values;
            let text = compact(d, elapsed);
            let mut reached = parse_out_time(d);
            if reached.is_none() {
                reached = parse_hms_to_seconds(get_or(d, "out_time", "00:00:00.00").as_str());
            }
            let bitrate = get_or(d, "bitrate", "N/A");
            let speed = get_or(d, "speed", "N/A");
            let fps = get_or(d, "fps", "N/A");
            let log = if same(text.as_str(), state.last_line.as_str()) {
                None
            } else {
                Some(text.clone())
            };
            state.last_line = text;
            Some(
                ProgressReport {
                    log,
                    reached,
                    bitrate,
                    speed,
                    fps,
                    end: same(val.as_str(), "end"),
                },
            )
        },
    }
}

/// The status line of a conversion that is under way.
pub open spec fn status_text(
    report: ProgressReport,
    share: Option<(Seq<char>, Seq<char>)>,
    lang: Lang,
) -> Seq<char> {
    match share {
        Some((pct, eta)) => filled(
            phrase(lang, "cvw.converting_pct"@),
            seq![pct, report.bitrate@, report.speed@, report.fps@, eta],
        ),
        None => filled(
            phrase(lang, "cvw.converting_plain"@),
            seq![report.bitrate@, report.speed@, report.fps@],
        ),
    }
}

/// The status of a running conversion. `share` is the percentage and the
/// remaining time, in words, where they are known.
pub fn running_status(report: &ProgressReport, share: Option<(&str, &str)>, lang: Lang) -> (r:
    String)
    ensures
        r@ == status_text(
            *report,
            match share {
                Some((pct, eta)) => Some((pct@, eta@)),
                None => None,
            },
            lang,
        ),
{
    match share {
        Some((pct, eta)) => {
            let args = [
                pct,
                report.bitrate.as_str(),
                report.speed.as_str(),
                report.fps.as_str(),
                eta,
            ];
            assert(strs(args@) =~= seq![
                pct@,
                report.bitrate@,
                report.speed@,
                report.fps@,
                eta@,
            ]);
            tf(lang, "cvw.converting_pct", &args)
        },
        None => {
            let args = [report.bitrate.as_str(), report.speed.as_str(), report.fps.as_str()];
            assert(strs(args@) =~= seq![report.bitrate@, report.speed@, report.fps@]);
            tf(lang, "cvw.converting_plain", &args)
        },
    }
}

// ---------------- how it ends ----------------

/// What is said when a conversion has ended.
pub open spec fn conversion_said(
    cancelled: bool,
    code: int,
    output: Seq<char>,
    lang: Lang,
) -> Seq<Said> {
    if cancelled {
        seq![
            Said::Status(Task::Convert, phrase(lang, "status.cancelled"@)),
            Said::Log(Task::Convert, phrase(lang, "cvw.cancelled_log"@)),
            Said::Finished(Task::Convert, End::Cancelled),
        ]
    } else if code == 0 {
        seq![
            Said::Progress(Task::Convert, Bar::Full),
            Said::Status(Task::Convert, phrase(lang, "cvw.completed"@)),
            Said::Log(Task::Convert, phrase(lang, "cvw.success_log"@)),
            Said::Toast(phrase(lang, "cvw.success_toast"@), false),
            Said::Finished(Task::Convert, End::Success(Some(output))),
        ]
    } else {
        seq![
            Said::Status(Task::Convert, phrase(lang, "cvw.failed"@)),
            Said::Log(
                Task::Convert,
                filled(phrase(lang, "cvw.failed_log"@), seq![int_dec(code)]),
            ),
            Said::Toast(phrase(lang, "cvw.failed"@), true),
            Said::Finished(Task::Convert, End::Failed),
        ]
    }
}

/// Reports how a conversion has ended.
pub fn report_conversion(cancelled: bool, code: i32, output: &str, lang: Lang) -> (r: Vec<UiMsg>)
    ensures
        said(r@) == conversion_said(cancelled, code as int, output@, lang),
{
    let mut out: Vec<UiMsg> = Vec::new();
    if cancelled {
        say_status(&mut out, Task::Convert, t(lang, "status.cancelled"));
        say_log(&mut out, Task::Convert, t(lang, "cvw.cancelled_log"));
        say(&mut out, UiMsg::Finished(Task::Convert, Outcome::Cancelled));
    } else if code == 0 {
        say(&mut out, UiMsg::Progress(Task::Convert, Progress::Full));
        say_status(&mut out, Task::Convert, t(lang, "cvw.completed"));
        say_log(&mut out, Task::Convert, t(lang, "cvw.success_log"));
        say_toast(&mut out, t(lang, "cvw.success_toast"), false);
        say(&mut out, UiMsg::Finished(Task::Convert, Outcome::Success(Some(output.to_owned()))));
    } else {
        let c = i64_text(code as i64);
        let args = [c.as_str()];
        let text = tf(lang, "cvw.failed_log", &args);
        assert(strs(args@) =~= seq![int_dec(code as int)]);
        say_status(&mut out, Task::Convert, t(lang, "cvw.failed"));
        say_log(&mut out, Task::Convert, text.as_str());
        say_toast(&mut out, t(lang, "cvw.failed"), true);
        say(&mut out, UiMsg::Finished(Task::Convert, Outcome::Failed));
    }
    assert(said(out@) =~= conversion_said(cancelled, code as int, output@, lang));
    out
}

/// What is said when a conversion could not be started.
pub open spec fn not_converted_said(error: Option<Seq<char>>, lang: Lang) -> Seq<Said> {
    match error {
        Some(e) => seq![
            Said::Log(Task::Convert, filled(phrase(lang, "common.error"@), seq![e])),
            Said::Status(Task::Convert, phrase(lang, "cvw.failed"@)),
        ],
        None => seq![Said::Status(Task::Convert, phrase(lang, "cvw.failed"@))],
    }
}

/// Reports that a conversion could not be started, and why where that is known.
pub fn report_not_converted(error: Option<&str>, lang: Lang) -> (r: Vec<UiMsg>)
    ensures
        said(r@) == not_converted_said(opt_str(error), lang),
{
    let mut out: Vec<UiMsg> = Vec::new();
    if let Some(e) = error {
        let args = [e];
        let text = tf(lang, "common.error", &args);
        assert(strs(args@) =~= seq![e@]);
        say_log(&mut out, Task::Convert, text.as_str());
    }
    say_status(&mut out, Task::Convert, t(lang, "cvw.failed"));
    assert(said(out@) =~= not_converted_said(opt_str(error), lang));
    out
}

// ---------------- laws ----------------

/// A run never writes more than the source holds, nor more than the section
/// that was asked for.
pub proof fn a_run_writes_no_more_than_there_is(
    total: int,
    start: Option<u64>,
    length: Option<u64>,
)
    requires
        total >= 0,
    ensures
        0 <= run_length(total, start, length) <= total,
        length is Some ==> run_length(total, start, length) <= length->0,
        start is None && length is None ==> run_length(total, start, length) == total,
{
}

/// Every conversion that ends is told to be over exactly once, and last; it is
/// a success exactly when ffmpeg says so and nobody stopped it.
pub proof fn every_conversion_is_told_once(
    cancelled: bool,
    code: int,
    output: Seq<char>,
    lang: Lang,
)
    ensures
        ({
            let e = conversion_said(cancelled, code, output, lang);
            &&& e.len() > 0
            &&& e.last() is Finished
            &&& forall|i: int| 0 <= i < e.len() - 1 ==> !((#[trigger] e[i]) is Finished)
            &&& e.last() == Said::Finished(Task::Convert, End::Success(Some(output))) <==> !cancelled
                && code == 0
        }),
{
}

/// A run writes the section that was asked for as far as the source reaches: the
/// length that was given, or what is left from the start on.
pub proof fn a_run_writes_the_section(total: int, start: Option<u64>, length: Option<u64>)
    requires
        total >= 0,
    ensures
        ({
            let from: int = match start {
                Some(s) => s as int,
                None => 0,
            };
            &&& from <= total && length is None ==> run_length(total, start, length) == total - from
            &&& length is Some && from + length->0 <= total ==> run_length(total, start, length)
                == length->0
            &&& length is Some && from <= total < from + length->0 ==> run_length(
                total,
                start,
                length,
            ) == total - from
            &&& from > total ==> run_length(total, start, length) == 0
        }),
{
}

/// A count of ffmpeg is in millionths of a second, but for a small one, which is
/// in thousandths.
pub proof fn a_count_is_in_millionths(n: int)
    requires
        0 <= n <= 9_000_000_000_000_000,
    ensures
        n > 10_000_000 ==> counted(n) == n * 1000,
        n <= 10_000_000 ==> counted(n) == n * 1_000_000,
{
}

/// How far a run has come is read off ffmpeg's clock where that tells it, else
/// off the count in millionths, else off the other count.
pub proof fn the_clock_comes_before_the_count(d: Dict, total: nat, n: int)
    requires
        total <= 9_000_000_000,
        0 < n <= i64::MAX,
    ensures
        d.at("out_time"@) == Some(clock_text(total)) ==> out_time_of(d) == Some(
            total as int * 1_000_000_000,
        ),
        d.at("out_time"@) is None && d.at("out_time_us"@) == Some(int_dec(n)) ==> out_time_of(d)
            == Some(counted(n)),
        d.at("out_time"@) is None && d.at("out_time_us"@) is None && d.at("out_time_ms"@) == Some(
            int_dec(n),
        ) ==> out_time_of(d) == Some(counted(n)),
        d.at("out_time"@) is None && d.at("out_time_us"@) is None && d.at("out_time_ms"@) is None
            ==> out_time_of(d) is None,
{
    a_clock_reads_back(total);
    a_signed_number_reads_back(n);
    reveal_strlit("");
    reveal_strlit(":");
    reveal_strlit(",");
    let e = ""@;
    assert(e =~= Seq::empty());
    lemma_trimmed_stays(e);
    assert(","@ =~= seq![',']);
    assert(":"@ =~= seq![':']);
    lemma_one_piece(e, ',');
    assert(pointed(e) == e);
    lemma_one_piece(e, ':');
    assert(hms_parts(e) is None);
}

/// A report tells the values that ffmpeg told last, and is the last one exactly
/// when ffmpeg says so.
pub proof fn a_report_tells_what_was_told(
    r: ProgressReport,
    d: Dict,
    last: Seq<char>,
    elapsed: int,
    value: Seq<char>,
)
    requires
        is_report(r, d, last, elapsed, value),
    ensures
        r.end <==> value == "end"@,
        d.at("bitrate"@) is Some ==> r.bitrate@ == d.at("bitrate"@)->0,
        d.at("speed"@) is Some ==> r.speed@ == d.at("speed"@)->0,
        d.at("fps"@) is Some ==> r.fps@ == d.at("fps"@)->0,
        d.at("bitrate"@) is None ==> r.bitrate@ == "N/A"@,
        r.log is Some ==> r.log->0@ != last,
        out_time_of(d) is Some ==> opt_signed(r.reached) == out_time_of(d),
{
}

/// A size is shown in whole kibibytes.
pub proof fn sizes_are_shown_in_kibibytes(n: int)
    requires
        0 <= n <= i64::MAX,
    ensures
        size_text(int_dec(n)) == int_dec(n / 1024) + " KiB"@,
{
    a_signed_number_reads_back(n);
}

/// The line of progress shows each value behind its name.
pub proof fn the_line_shows_every_value(d: Dict, elapsed: int)
    ensures
        within(compact_line(d, elapsed), " fps="@ + value_or(d, "fps"@, "N/A"@) + " q="@),
        within(
            compact_line(d, elapsed),
            " time="@ + value_or(d, "out_time"@, "00:00:00.00"@) + " bitrate="@,
        ),
        within(
            compact_line(d, elapsed),
            " bitrate="@ + value_or(d, "bitrate"@, "N/A"@) + " speed="@,
        ),
        within(compact_line(d, elapsed), " speed="@ + value_or(d, "speed"@, "N/A"@) + " elapsed="@),
{
    let l = compact_line(d, elapsed);
    let a = "frame="@ + right_aligned(value_or(d, "frame"@, "?"@), 5);
    let fps = " fps="@ + value_or(d, "fps"@, "N/A"@) + " q="@;
    let b = a + fps + value_or(d, "stream_0_0_q"@, "?"@) + " size="@ + right_aligned(
        size_text(value_or(d, "total_size"@, "0"@)),
        9,
    );
    let time = " time="@ + value_or(d, "out_time"@, "00:00:00.00"@) + " bitrate="@;
    let rate = " bitrate="@ + value_or(d, "bitrate"@, "N/A"@) + " speed="@;
    let speed = " speed="@ + value_or(d, "speed"@, "N/A"@) + " elapsed="@;
    let n = a.len() as int;
    assert(l.subrange(n, n + fps.len()) =~= fps);
    assert(is_at(l, fps, n));
    let m = b.len() as int;
    assert(l.subrange(m, m + time.len()) =~= time);
    assert(is_at(l, time, m));
    let k = m + time.len() - " bitrate="@.len();
    assert(l.subrange(k, k + rate.len()) =~= rate);
    assert(is_at(l, rate, k));
    let j = k + rate.len() - " speed="@.len();
    assert(l.subrange(j, j + speed.len()) =~= speed);
    assert(is_at(l, speed, j));
}

/// A conversion that was stopped ends as stopped, and one that failed as failed,
/// with its exit code in the log.
pub proof fn a_failed_conversion_is_told_with_its_code(
    code: int,
    output: Seq<char>,
    lang: Lang,
)
    requires
        code != 0,
    ensures
        conversion_said(true, code, output, lang).last() == Said::Finished(
            Task::Convert,
            End::Cancelled,
        ),
        conversion_said(true, 0, output, lang).last() == Said::Finished(
            Task::Convert,
            End::Cancelled,
        ),
        conversion_said(false, code, output, lang).last() == Said::Finished(
            Task::Convert,
            End::Failed,
        ),
        conversion_said(false, code, output, lang).contains(
            Said::Log(
                Task::Convert,
                filled(phrase(lang, "cvw.failed_log"@), seq![int_dec(code)]),
            ),
        ),
{
    let e = conversion_said(false, code, output, lang);
    assert(e[1] is Log);
}

/// The head of a log names the codec and its encoder, and the bitrate or the
/// quality, whichever counts.
pub proof fn the_head_names_what_counts(p: Profile, lang: Lang)
    ensures
        p.use_custom ==> mode_text(p, lang) == filled(
            phrase(lang, "cvw.mode_custom"@),
            seq![int_dec(p.custom_br as int)],
        ),
        !p.use_custom ==> mode_text(p, lang) == filled(
            phrase(lang, "cvw.mode_crf"@),
            seq![int_dec(p.crf as int)],
        ),
        !p.audio_only ==> codec_lines(p, lang)[0] == filled(
            phrase(lang, "cvw.codec"@),
            seq![p.codec_key@, p.video_codec@],
        ),
        p.audio_only ==> codec_lines(p, lang)[0] == filled(
            phrase(lang, "cvw.codec_audio"@),
            seq![p.codec_key@, p.audio_codec@],
        ),
{
}

/// Every line that ffmpeg prints is logged, but for empty ones and the one on
/// how to stop it.
pub proof fn every_line_is_told(line: Seq<char>)
    ensures
        line.len() == 0 ==> told_line(line) is None,
        within(line, "Press [q]"@) ==> told_line(line) is None,
        line.len() > 0 && !within(line, "Press [q]"@) ==> told_line(line) == Some(line),
{
}

/// The status tells the bitrate, the speed and the frame rate, with the share
/// that is done in front and the time that is left behind where they are known.
pub proof fn the_status_tells_the_progress(
    r: ProgressReport,
    pct: Seq<char>,
    eta: Seq<char>,
    lang: Lang,
)
    ensures
        status_text(r, Some((pct, eta)), lang) == filled(
            phrase(lang, "cvw.converting_pct"@),
            seq![pct, r.bitrate@, r.speed@, r.fps@, eta],
        ),
        status_text(r, None, lang) == filled(
            phrase(lang, "cvw.converting_plain"@),
            seq![r.bitrate@, r.speed@, r.fps@],
        ),
{
}

/// The head of a log tells of the source what is known of it, of the hardware
/// where it was found by itself, and of a cut from where to where it goes.
pub proof fn the_head_tells_what_is_known(
    p: Profile,
    params: ConvertParams,
    meta: Dict,
    x: Seq<char>,
    d: Seq<char>,
    a: i64,
    b: i64,
    lang: Lang,
)
    ensures
        !p.audio_only && p.hw_requested@ == "auto"@ ==> codec_lines(p, lang) == seq![
            filled(phrase(lang, "cvw.codec"@), seq![p.codec_key@, p.video_codec@]),
            filled(phrase(lang, "cvw.hw_auto"@), seq![p.hw_resolved@]),
            filled(phrase(lang, "cvw.mode"@), seq![mode_text(p, lang)]),
        ],
        !p.audio_only && p.hw_requested@ != "auto"@ ==> codec_lines(p, lang) == seq![
            filled(phrase(lang, "cvw.codec"@), seq![p.codec_key@, p.video_codec@]),
            filled(phrase(lang, "cvw.mode"@), seq![mode_text(p, lang)]),
        ],
        meta.pairs().len() == 0 ==> source_lines(Some(x), meta, Some(d), lang) == seq![
            filled(phrase(lang, "cvw.source"@), seq![x]),
            filled(phrase(lang, "cvw.duration"@), seq![d]),
        ],
        meta.pairs().len() > 0 ==> source_lines(None, meta, None, lang) == seq![
            filled(phrase(lang, "cvw.color"@), seq![joined(entry_texts(meta), ", "@)]),
        ],
        is_cut(params) && params.trim_start == Some(a) && params.trim_end == Some(b) ==> trim_lines(
            params,
            lang,
        ) == seq![
            filled(
                phrase(lang, "cvw.trim"@),
                seq![clock_text(whole_seconds(a as int)), clock_text(whole_seconds(b as int))],
            ),
        ],
        is_cut(params) && params.trim_start is None && params.trim_end is None ==> trim_lines(
            params,
            lang,
        ) == seq![
            filled(
                phrase(lang, "cvw.trim"@),
                seq![clock_text(whole_seconds(0)), phrase(lang, "cv.trim_end_of_file"@)],
            ),
        ],
        !is_cut(params) ==> trim_lines(params, lang).len() == 0,
{
}

/// A conversion ends as what it was: stopped, done with its file, or failed.
pub proof fn a_conversion_ends_as_it_went(code: int, output: Seq<char>, lang: Lang)
    requires
        code != 0,
    ensures
        conversion_said(true, code, output, lang) == seq![
            Said::Status(Task::Convert, phrase(lang, "status.cancelled"@)),
            Said::Log(Task::Convert, phrase(lang, "cvw.cancelled_log"@)),
            Said::Finished(Task::Convert, End::Cancelled),
        ],
        conversion_said(false, 0, output, lang) == seq![
            Said::Progress(Task::Convert, Bar::Full),
            Said::Status(Task::Convert, phrase(lang, "cvw.completed"@)),
            Said::Log(Task::Convert, phrase(lang, "cvw.success_log"@)),
            Said::Toast(phrase(lang, "cvw.success_toast"@), false),
            Said::Finished(Task::Convert, End::Success(Some(output))),
        ],
        conversion_said(false, code, output, lang)[0] == Said::Status(
            Task::Convert,
            phrase(lang, "cvw.failed"@),
        ),
        conversion_said(false, code, output, lang)[2] == Said::Toast(
            phrase(lang, "cvw.failed"@),
            true,
        ),
        not_converted_said(Some(output), lang) == seq![
            Said::Log(Task::Convert, filled(phrase(lang, "common.error"@), seq![output])),
            Said::Status(Task::Convert, phrase(lang, "cvw.failed"@)),
        ],
        not_converted_said(None, lang) == seq![
            Said::Status(Task::Convert, phrase(lang, "cvw.failed"@)),
        ],
{
}

/// A size that cannot be read is nothing, and time does not run backwards.
pub proof fn what_cannot_be_read_is_nothing(t: Seq<char>, ns: int)
    ensures
        signed_of(t) is None ==> size_text(t) == "0 KiB"@,
        ns < 0 ==> elapsed_text(ns) == "0:00:00.00"@,
{
}

/// What ffmpeg tells under a key is kept under it, and nothing else changes.
pub proof fn a_told_value_is_kept(after: Dict, before: Dict, key: Seq<char>, value: Seq<char>)
    requires
        is_inserted(after, before, key, value),
    ensures
        after.at(key) == Some(value),
        forall|k: Seq<char>| k != key ==> #[trigger] after.at(k) == before.at(k),
{
}

/// The colors of a source are told as pairs, and a rule ends the head.
pub proof fn a_color_is_told_as_a_pair(k: Seq<char>, v: Seq<char>)
    ensures
        entry_text((k, v)) == k + "="@ + v,
        RULE@ == "--------------------------------------------"@,
{
}

} // verus!
