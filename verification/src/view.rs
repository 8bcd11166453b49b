//! What the tabs show: labels, hints and summaries.

use crate::consts::{Choice, APP_NAME, VERSION};
use crate::i18n::{filled, phrase, t, tf, Lang};
use crate::number::{dec, dec_reads_back, div_nearest, nearest, u128_text, u64_text};
use crate::pattern::{is_web_address, matches_address};
use crate::queue::{count_of, lemma_count_of, Queue, QueueItem};
use crate::text::{
    contains, from_chars, is_digit, is_space, is_space_char, lemma_trimmed_stays, opt_str, opt_text,
    same, starts_with, strip_prefix, strs, to_chars, trim, trimmed, within,
};
use crate::types::QueueState;
use crate::util::{push_tenths, tenths_text};
use vstd::prelude::*;

verus! {

// ---------------- the queue ----------------

/// The text key of a queue state.
pub open spec fn state_key(state: QueueState) -> Seq<char> {
    match state {
        QueueState::Pending => "qs.pending"@,
        QueueState::Running => "qs.running"@,
        QueueState::Done => "qs.done"@,
        QueueState::Failed => "qs.failed"@,
        QueueState::Skipped => "qs.skipped"@,
    }
}

/// The text key of a queue state.
pub fn queue_state_key(state: QueueState) -> (r: &'static str)
    ensures
        r@ == state_key(state),
{
    match state {
        QueueState::Pending => "qs.pending",
        QueueState::Running => "qs.running",
        QueueState::Done => "qs.done",
        QueueState::Failed => "qs.failed",
        QueueState::Skipped => "qs.skipped",
    }
}

/// The symbol of a queue state.
pub open spec fn state_mark(state: QueueState) -> Seq<char> {
    match state {
        QueueState::Pending => "○"@,
        QueueState::Running => "▶"@,
        QueueState::Done => "✔"@,
        QueueState::Failed => "✖"@,
        QueueState::Skipped => "–"@,
    }
}

/// The symbol of a queue state.
pub fn queue_mark(state: QueueState) -> (r: &'static str)
    ensures
        r@ == state_mark(state),
{
    match state {
        QueueState::Pending => "○",
        QueueState::Running => "▶",
        QueueState::Done => "✔",
        QueueState::Failed => "✖",
        QueueState::Skipped => "–",
    }
}

/// How many characters of a URL the queue list shows.
pub const MAX_URL: usize = 72;

/// A URL without its scheme.
pub open spec fn without_scheme(url: Seq<char>) -> Seq<char> {
    if "https://"@.is_prefix_of(url) {
        url.skip("https://"@.len() as int)
    } else if "http://"@.is_prefix_of(url) {
        url.skip("http://"@.len() as int)
    } else {
        url
    }
}

/// A text with its middle left out where it is long.
pub open spec fn shortened(s: Seq<char>) -> Seq<char> {
    if s.len() <= MAX_URL {
        s
    } else {
        s.take(MAX_URL - 12) + "..."@ + s.skip(s.len() - 9)
    }
}

/// Shortens a URL for the queue list; the full one stays in the tooltip.
pub fn short_url(url: &str) -> (r: String)
    ensures
        r@ == shortened(without_scheme(url@)),
{
    let plain = match strip_prefix(url, "https://") {
        Some(s) => s,
        None => match strip_prefix(url, "http://") {
            Some(s) => s,
            None => url.to_owned(),
        },
    };
    let all = to_chars(plain.as_str());
    let n = all.len();
    if n <= MAX_URL {
        return plain;
    }
    // Cut on character boundaries - a URL may well carry non-ASCII.
    let mut out = from_chars(&all, 0, MAX_URL - 12);
    let tail = from_chars(&all, n - 9, n);
    assert(out@ =~= plain@.take(MAX_URL - 12));
    assert(tail@ =~= plain@.skip(plain@.len() - 9));
    out.append("...");
    out.append(tail.as_str());
    out
}

/// The label of the start button. With something already lined up it says how
/// much work pressing it starts, rather than just "Start".
pub open spec fn start_text(lang: Lang, waiting: nat, typed: Seq<char>) -> Seq<char> {
    let n = waiting + if trimmed(typed).len() > 0 {
        1nat
    } else {
        0nat
    };
    if n > 1 {
        filled(phrase(lang, "dl.start_queue"@), seq![dec(n)])
    } else {
        phrase(lang, "dl.start"@)
    }
}

/// The label of the start button.
pub fn start_label(lang: Lang, waiting: usize, typed: &str) -> (r: String)
    ensures
        r@ == start_text(lang, waiting as nat, typed@),
{
    let extra: u128 = if trim(typed).as_str().is_empty() {
        0
    } else {
        1
    };
    let n: u128 = waiting as u128 + extra;
    if n > 1 {
        let count = u128_text(n);
        let args = [count.as_str()];
        let r = tf(lang, "dl.start_queue", &args);
        assert(strs(args@) =~= seq![count@]);
        r
    } else {
        t(lang, "dl.start").to_owned()
    }
}

/// The summary of a worked off queue.
pub fn queue_summary(lang: Lang, done: usize, failed: usize) -> (r: String)
    ensures
        r@ == filled(
            phrase(lang, "dl.queue_done"@),
            seq![dec(done as nat), dec(failed as nat)],
        ),
{
    let d = u64_text(done as u64);
    let f = u64_text(failed as u64);
    let args = [d.as_str(), f.as_str()];
    let r = tf(lang, "dl.queue_done", &args);
    assert(strs(args@) =~= seq![d@, f@]);
    r
}

/// How far a queue is: the entries that do not wait any more, of all.
pub open spec fn position_text(lang: Lang, items: Seq<QueueItem>) -> Seq<char> {
    filled(
        phrase(lang, "dl.queue_running"@),
        seq![dec((items.len() - count_of(items, QueueState::Pending)) as nat), dec(items.len())],
    )
}

/// How far a queue is: the entries that are not waiting, of all.
pub fn queue_position(lang: Lang, queue: &Queue) -> (r: String)
    ensures
        r@ == position_text(lang, queue.view().items),
{
    let total = queue.len();
    let waiting = queue.count(QueueState::Pending);
    proof {
        lemma_count_of(queue.view().items, QueueState::Pending);
    }
    let d = u64_text((total - waiting) as u64);
    let f = u64_text(total as u64);
    let args = [d.as_str(), f.as_str()];
    let r = tf(lang, "dl.queue_running", &args);
    assert(strs(args@) =~= seq![d@, f@]);
    r
}

// ---------------- the history ----------------

/// How long ago something happened, in the coarsest unit that still says
/// something. Absolute dates would need a calendar and a timezone; the
/// history is read as "what did I just do", for which this is enough.
pub open spec fn when_text(lang: Lang, when: u64, now: u64) -> Seq<char> {
    let secs: nat = if now >= when {
        (now - when) as nat
    } else {
        0
    };
    if when == 0 {
        Seq::empty()
    } else if secs < 90 {
        phrase(lang, "when.now"@)
    } else if secs / 60 < 60 {
        filled(phrase(lang, "when.minutes"@), seq![dec(secs / 60)])
    } else if secs / 60 / 60 < 24 {
        filled(phrase(lang, "when.hours"@), seq![dec(secs / 60 / 60)])
    } else {
        filled(phrase(lang, "when.days"@), seq![dec(secs / 60 / 60 / 24)])
    }
}

fn tf_number(lang: Lang, key: &'static str, n: u64) -> (r: String)
    ensures
        r@ == filled(phrase(lang, key@), seq![dec(n as nat)]),
{
    let d = u64_text(n);
    let args = [d.as_str()];
    let r = tf(lang, key, &args);
    assert(strs(args@) =~= seq![d@]);
    r
}

/// How long before `now` something happened.
pub fn relative_when(lang: Lang, when: u64, now: u64) -> (r: String)
    ensures
        r@ == when_text(lang, when, now),
{
    if when == 0 {
        return String::new();
    }
    let secs: u64 = if now >= when {
        now - when
    } else {
        0
    };
    if secs < 90 {
        return t(lang, "when.now").to_owned();
    }
    let minutes: u64 = secs / 60;
    if minutes < 60 {
        return tf_number(lang, "when.minutes", minutes);
    }
    let hours: u64 = minutes / 60;
    if hours < 24 {
        return tf_number(lang, "when.hours", hours);
    }
    tf_number(lang, "when.days", hours / 24)
}

// ---------------- options ----------------

/// The place of an option from the `i`-th on.
pub open spec fn choice_from(options: Seq<Choice>, current: Seq<char>, i: int) -> Option<int>
    decreases options.len() - i,
{
    if i < 0 || i >= options.len() {
        None
    } else if options[i].0@ == current {
        Some(i)
    } else {
        choice_from(options, current, i + 1)
    }
}

/// The label of an option; one that is not among them is shown as it is.
pub open spec fn label_text(lang: Lang, current: Seq<char>, options: Seq<Choice>) -> Seq<char> {
    match choice_from(options, current, 0) {
        Some(i) => phrase(lang, options[i].1@),
        None => current,
    }
}

/// The label of an option; one that is not among them is shown as it is.
pub fn label_of(lang: Lang, current: &str, options: &[Choice]) -> (r: String)
    ensures
        r@ == label_text(lang, current@, options@),
{
    let n = options.len();
    let mut i: usize = 0;
    while i < n
        invariant
            n == options@.len(),
            i <= n,
            choice_from(options@, current@, 0) == choice_from(options@, current@, i as int),
        decreases n - i,
    {
        let (value, key) = options[i];
        if same(value, current) {
            return t(lang, key).to_owned();
        }
        i += 1;
    }
    current.to_owned()
}

/// The text key of the caveat shown under the codec picker, if any.
pub open spec fn hint_key(key: Seq<char>, audio_only: bool) -> Option<Seq<char>> {
    if audio_only {
        Some("cv.hint_audio_only"@)
    } else if within(key, "prores"@) || within(key, "dnxhr"@) || key == "vegas_fix"@ {
        Some("cv.hint_cpu"@)
    } else if key == "copy"@ {
        Some("cv.hint_copy"@)
    } else if within(key, "av1"@) {
        Some("cv.hint_av1"@)
    } else {
        None
    }
}

/// The text key of the caveat shown under the codec picker, if any.
pub fn codec_hint(key: &str, audio_only: bool) -> (r: Option<&'static str>)
    ensures
        opt_str(r) == hint_key(key@, audio_only),
{
    if audio_only {
        Some("cv.hint_audio_only")
    } else if contains(key, "prores") || contains(key, "dnxhr") || same(key, "vegas_fix") {
        Some("cv.hint_cpu")
    } else if same(key, "copy") {
        Some("cv.hint_copy")
    } else if contains(key, "av1") {
        Some("cv.hint_av1")
    } else {
        None
    }
}

// ---------------- the tools ----------------

/// What a hardware encoder is called.
pub open spec fn hw_name(backend: Seq<char>) -> Seq<char> {
    if backend == "nvidia"@ {
        "NVIDIA NVENC"@
    } else if backend == "amd"@ {
        "AMD AMF"@
    } else if backend == "intel"@ {
        "Intel QSV"@
    } else {
        "CPU"@
    }
}

/// What a hardware encoder is called.
pub fn hw_label(backend: &str) -> (r: &'static str)
    ensures
        r@ == hw_name(backend@),
{
    if same(backend, "nvidia") {
        "NVIDIA NVENC"
    } else if same(backend, "amd") {
        "AMD AMF"
    } else if same(backend, "intel") {
        "Intel QSV"
    } else {
        "CPU"
    }
}

/// At most the first sixteen characters of a text.
pub open spec fn first_sixteen(s: Seq<char>) -> Seq<char> {
    if s.len() < 16 {
        s
    } else {
        s.take(16)
    }
}

/// A name with the beginning of its value.
pub open spec fn chip_of(name: Seq<char>, value: Seq<char>) -> Seq<char> {
    name + ": "@ + first_sixteen(value)
}

/// The text on the chip of a tool: its name and its version, cut short.
pub fn chip_text(name: &str, value: &str) -> (r: String)
    ensures
        r@ == chip_of(name@, value@),
{
    let v = to_chars(value);
    let n: usize = if v.len() < 16 {
        v.len()
    } else {
        16
    };
    let short = from_chars(&v, 0, n);
    assert(short@ =~= first_sixteen(value@));
    let mut out = name.to_owned();
    out.append(": ");
    out.append(short.as_str());
    out
}

/// How far the download of a tool is, with the share of the whole where that is
/// known.
pub open spec fn progress_of(lang: Lang, prefix: Seq<char>, written: nat, total: nat) -> Seq<char> {
    if total > 0 {
        filled(
            phrase(lang, "setup.progress_pct"@),
            seq![prefix, dec(nearest(100 * written, total)), tenths_text(written, 0x10_0000)],
        )
    } else {
        filled(
            phrase(lang, "setup.progress_plain"@),
            seq![prefix, tenths_text(written, 0x10_0000)],
        )
    }
}

/// How far the download of a tool is.
pub fn progress_text(lang: Lang, prefix: &str, written: u64, total: u64) -> (r: String)
    ensures
        r@ == progress_of(lang, prefix@, written as nat, total as nat),
{
    let mut mb = String::new();
    push_tenths(&mut mb, written, 0x10_0000);
    assert(mb@ =~= tenths_text(written as nat, 0x10_0000));
    if total > 0 {
        let pct = u128_text(div_nearest(100 * written as u128, total as u128));
        let args = [prefix, pct.as_str(), mb.as_str()];
        let r = tf(lang, "setup.progress_pct", &args);
        assert(strs(args@) =~= seq![prefix@, pct@, mb@]);
        r
    } else {
        let args = [prefix, mb.as_str()];
        let r = tf(lang, "setup.progress_plain", &args);
        assert(strs(args@) =~= seq![prefix@, mb@]);
        r
    }
}

// ---------------- a source ----------------

/// The size, the frame rate and the codec of a picture, as far as they are
/// known.
pub open spec fn picture_text(
    width: nat,
    height: nat,
    fps: Option<Seq<char>>,
    codec: Seq<char>,
) -> Seq<char> {
    let size = if width > 0 && height > 0 {
        dec(width) + "x"@ + dec(height)
    } else {
        Seq::empty()
    };
    let rate = match fps {
        Some(f) => size + " @ "@ + f + " fps"@,
        None => size,
    };
    let all = if codec.len() > 0 {
        trimmed(rate) + " ("@ + codec + ")"@
    } else {
        rate
    };
    trimmed(all)
}

/// The size, the frame rate and the codec of a picture, as far as they are
/// known; `fps` is the frame rate as text.
pub fn video_text(width: u32, height: u32, fps: Option<&str>, codec: &str) -> (r: String)
    ensures
        r@ == picture_text(width as nat, height as nat, opt_str(fps), codec@),
{
    let mut video = String::new();
    if width > 0 && height > 0 {
        video.append(u64_text(width as u64).as_str());
        video.append("x");
        video.append(u64_text(height as u64).as_str());
        assert(video@ =~= dec(width as nat) + "x"@ + dec(height as nat));
    } else {
        assert(video@ =~= Seq::empty());
    }
    if let Some(f) = fps {
        video.append(" @ ");
        video.append(f);
        video.append(" fps");
    }
    if !codec.is_empty() {
        video = trim(video.as_str());
        video.append(" (");
        video.append(codec);
        video.append(")");
    }
    trim(video.as_str())
}

// ---------------- the window ----------------

/// The title of the window. A running job is mirrored into it, so a minimised
/// window still says how far along it is.
pub open spec fn title_of(running: Option<(Seq<char>, Seq<char>)>) -> Seq<char> {
    let base = APP_NAME@ + " v"@ + VERSION@;
    match running {
        Some((percent, what)) => percent + "% "@ + what + " - "@ + base,
        None => base,
    }
}

/// The title of the window; `running` is the percentage of a running job and
/// what the job is called.
pub fn window_title(running: Option<(&str, &str)>) -> (r: String)
    ensures
        r@ == title_of(
            match running {
                Some((p, w)) => Some((p@, w@)),
                None => None,
            },
        ),
{
    let mut base = APP_NAME.to_owned();
    base.append(" v");
    base.append(VERSION);
    match running {
        Some((percent, what)) => {
            let mut out = percent.to_owned();
            out.append("% ");
            out.append(what);
            out.append(" - ");
            out.append(base.as_str());
            out
        },
        None => base,
    }
}

/// The job that the title of the window tells of: the download before the
/// conversion, and only one that has a bar.
pub open spec fn titled(dl_busy: bool, dl_bar: bool, cv_busy: bool, cv_bar: bool) -> Option<
    Seq<char>,
> {
    if dl_busy {
        if dl_bar {
            Some("nav.download"@)
        } else {
            None
        }
    } else if cv_busy && cv_bar {
        Some("nav.convert"@)
    } else {
        None
    }
}

/// The job that the title speaks of: the download before the conversion, and
/// only one that shows a bar.
pub fn titled_job(dl_busy: bool, dl_bar: bool, cv_busy: bool, cv_bar: bool) -> (r: Option<
    &'static str,
>)
    ensures
        opt_str(r) == titled(dl_busy, dl_bar, cv_busy, cv_bar),
{
    if dl_busy {
        if dl_bar {
            Some("nav.download")
        } else {
            None
        }
    } else if cv_busy && cv_bar {
        Some("nav.convert")
    } else {
        None
    }
}

/// A text from the clipboard that is the address of a page.
pub fn pasted_url(text: &str) -> (r: Option<String>)
    ensures
        opt_text(r) == (if is_web_address(trimmed(text@)) {
            Some(trimmed(text@))
        } else {
            None
        }),
{
    let url = trim(text);
    if matches_address(url.as_str()) {
        Some(url)
    } else {
        None
    }
}

/// A URL may be handed to the browser. Handing an arbitrary string to the shell
/// is how "open this link" turns into "run this command", so only plain https
/// URLs get through.
pub open spec fn is_openable(url: Seq<char>) -> bool {
    "https://"@.is_prefix_of(url) && forall|i: int|
        0 <= i < url.len() ==> !is_space(#[trigger] url[i])
}

/// Whether a URL may be handed to the browser.
pub fn openable(url: &str) -> (r: bool)
    ensures
        r == is_openable(url@),
{
    if !starts_with(url, "https://") {
        return false;
    }
    let v = to_chars(url);
    for i in 0..v.len()
        invariant
            v@ == url@,
            forall|j: int| 0 <= j < i ==> !is_space(#[trigger] v@[j]),
    {
        if is_space_char(v[i]) {
            return false;
        }
    }
    true
}

// ---------------- laws ----------------

/// A shortened URL fits the list and ends as the URL does, so two similar links
/// stay apart.
pub proof fn a_short_url_fits_and_keeps_its_end(url: Seq<char>)
    ensures
        shortened(without_scheme(url)).len() <= MAX_URL,
        without_scheme(url).len() > MAX_URL ==> without_scheme(url).skip(
            without_scheme(url).len() - 9,
        ).is_suffix_of(shortened(without_scheme(url))),
        without_scheme(url).len() <= MAX_URL ==> shortened(without_scheme(url)) == without_scheme(
            url,
        ),
{
    reveal_strlit("...");
    let s = without_scheme(url);
    if s.len() > MAX_URL {
        let r = shortened(s);
        assert(r.skip(r.len() - 9) =~= s.skip(s.len() - 9));
    }
}

/// Each state of an entry has its own word and its own mark.
pub proof fn states_have_their_words_and_marks()
    ensures
        state_key(QueueState::Pending) == "qs.pending"@,
        state_key(QueueState::Running) == "qs.running"@,
        state_key(QueueState::Done) == "qs.done"@,
        state_key(QueueState::Failed) == "qs.failed"@,
        state_key(QueueState::Skipped) == "qs.skipped"@,
        state_mark(QueueState::Pending) == "○"@,
        state_mark(QueueState::Running) == "▶"@,
        state_mark(QueueState::Done) == "✔"@,
        state_mark(QueueState::Failed) == "✖"@,
        state_mark(QueueState::Skipped) == "–"@,
{
}

/// An address is shown without its scheme, and a long one without its middle:
/// its first sixty characters and its last nine.
pub proof fn an_address_is_shown_without_its_scheme(rest: Seq<char>)
    ensures
        without_scheme("https://"@ + rest) == rest,
        without_scheme("http://"@ + rest) == rest,
        rest.len() <= 72 ==> shortened(rest) == rest,
        rest.len() > 72 ==> shortened(rest) == rest.take(60) + "..."@ + rest.skip(rest.len() - 9),
{
    reveal_strlit("https://");
    reveal_strlit("http://");
    let a = "https://"@ + rest;
    let b = "http://"@ + rest;
    assert(a.take("https://"@.len() as int) =~= "https://"@);
    assert(b.take("http://"@.len() as int) =~= "http://"@);
    assert("https://"@.is_prefix_of(a));
    assert("http://"@.is_prefix_of(b));
    assert(a.skip(8) =~= rest);
    assert(b.skip(7) =~= rest);
    assert(!"https://"@.is_prefix_of(b)) by {
        assert(b[4] == ':' && "https://"@[4] == 's');
        if "https://"@.is_prefix_of(b) {
            assert(b.subrange(0, 8)[4] == "https://"@[4]);
        }
    }
}

/// The button to start counts the entries that wait and the address that was
/// typed, where they are more than one.
pub proof fn the_button_counts_what_will_start(lang: Lang, waiting: nat, typed: Seq<char>)
    ensures
        trimmed(typed).len() == 0 && waiting <= 1 ==> start_text(lang, waiting, typed) == phrase(
            lang,
            "dl.start"@,
        ),
        trimmed(typed).len() == 0 && waiting > 1 ==> start_text(lang, waiting, typed) == filled(
            phrase(lang, "dl.start_queue"@),
            seq![dec(waiting)],
        ),
        trimmed(typed).len() > 0 && waiting == 0 ==> start_text(lang, waiting, typed) == phrase(
            lang,
            "dl.start"@,
        ),
        trimmed(typed).len() > 0 && waiting > 0 ==> start_text(lang, waiting, typed) == filled(
            phrase(lang, "dl.start_queue"@),
            seq![dec(waiting + 1)],
        ),
{
}

/// How long ago something was is told in whole minutes, hours or days: the
/// largest of these of which one has passed. The first minute and a half is
/// now, and a time that is not known is not told.
pub proof fn an_age_is_told_in_whole_units(lang: Lang, when: u64, now: u64, n: nat)
    requires
        0 < when <= now,
    ensures
        ({
            let secs = now - when;
            &&& secs < 90 ==> when_text(lang, when, now) == phrase(lang, "when.now"@)
            &&& 90 <= secs < 3600 && 60 * n <= secs < 60 * n + 60 ==> when_text(lang, when, now)
                == filled(phrase(lang, "when.minutes"@), seq![dec(n)])
            &&& 3600 <= secs < 86400 && 3600 * n <= secs < 3600 * n + 3600 ==> when_text(
                lang,
                when,
                now,
            ) == filled(phrase(lang, "when.hours"@), seq![dec(n)])
            &&& 86400 <= secs && 86400 * n <= secs < 86400 * n + 86400 ==> when_text(
                lang,
                when,
                now,
            ) == filled(phrase(lang, "when.days"@), seq![dec(n)])
        }),
        when_text(lang, 0, now).len() == 0,
        when_text(lang, when, 0) == phrase(lang, "when.now"@),
{
}

proof fn lemma_choice_at(options: Seq<Choice>, current: Seq<char>, at: int, i: int)
    requires
        0 <= at <= i < options.len(),
        options[i].0@ == current,
        forall|j: int| at <= j < i ==> (#[trigger] options[j]).0@ != current,
    ensures
        choice_from(options, current, at) == Some(i),
    decreases i - at,
{
    if at < i {
        lemma_choice_at(options, current, at + 1, i);
    }
}

/// A choice is shown by the label that stands beside it.
pub proof fn a_choice_is_shown_by_its_label(
    lang: Lang,
    options: Seq<Choice>,
    current: Seq<char>,
    i: int,
)
    requires
        0 <= i < options.len(),
        options[i].0@ == current,
        forall|j: int| 0 <= j < i ==> (#[trigger] options[j]).0@ != current,
    ensures
        label_text(lang, current, options) == phrase(lang, options[i].1@),
{
    lemma_choice_at(options, current, 0, i);
}

/// What is told beside a codec: that it is sound only, that the processor makes
/// it, that nothing is encoded, or that it is slow.
pub proof fn a_codec_has_its_hint(key: Seq<char>)
    ensures
        hint_key(key, true) == Some("cv.hint_audio_only"@),
        within(key, "prores"@) || within(key, "dnxhr"@) || key == "vegas_fix"@ ==> hint_key(
            key,
            false,
        ) == Some("cv.hint_cpu"@),
        !within(key, "prores"@) && !within(key, "dnxhr"@) && key == "copy"@ ==> hint_key(key, false)
            == (if key == "vegas_fix"@ {
            Some("cv.hint_cpu"@)
        } else {
            Some("cv.hint_copy"@)
        }),
        !within(key, "prores"@) && !within(key, "dnxhr"@) && key != "vegas_fix"@ && key != "copy"@
            && within(key, "av1"@) ==> hint_key(key, false) == Some("cv.hint_av1"@),
        !within(key, "prores"@) && !within(key, "dnxhr"@) && key != "vegas_fix"@ && key != "copy"@
            && !within(key, "av1"@) ==> hint_key(key, false) is None,
{
}

/// Each backend is shown by its maker and the name of its encoder.
pub proof fn a_backend_is_shown_by_its_name(b: Seq<char>)
    ensures
        hw_name("nvidia"@) == "NVIDIA NVENC"@,
        hw_name("amd"@) == "AMD AMF"@,
        hw_name("intel"@) == "Intel QSV"@,
        b != "nvidia"@ && b != "amd"@ && b != "intel"@ ==> hw_name(b) == "CPU"@,
{
    reveal_strlit("nvidia");
    reveal_strlit("amd");
    reveal_strlit("intel");
    assert("nvidia"@.len() == 6 && "amd"@.len() == 3 && "intel"@.len() == 5);
}

/// Progress is told in percent of the whole where that is known, and in
/// megabytes.
pub proof fn progress_is_told_in_percent_and_megabytes(
    lang: Lang,
    prefix: Seq<char>,
    written: nat,
    total: nat,
    percent: nat,
)
    requires
        total > 0,
        100 * written == percent * total,
    ensures
        progress_of(lang, prefix, written, total) == filled(
            phrase(lang, "setup.progress_pct"@),
            seq![prefix, dec(percent), tenths_text(written, 1024 * 1024)],
        ),
        progress_of(lang, prefix, written, 0) == filled(
            phrase(lang, "setup.progress_plain"@),
            seq![prefix, tenths_text(written, 1024 * 1024)],
        ),
{
    let n = 100 * written;
    assert(n % total == 0 && n / total == percent) by (nonlinear_arith)
        requires
            total > 0,
            n == percent * total,
    ;
}

/// A picture is told by its size, its frame rate and its codec.
pub proof fn a_picture_is_told_by_its_facts(w: nat, h: nat, f: Seq<char>, c: Seq<char>)
    requires
        w > 0 && h > 0,
        c.len() > 0,
    ensures
        picture_text(w, h, Some(f), c) == dec(w) + "x"@ + dec(h) + " @ "@ + f + " fps"@ + " ("@ + c
            + ")"@,
        picture_text(w, h, None, c) == dec(w) + "x"@ + dec(h) + " ("@ + c + ")"@,
        picture_text(w, h, None, Seq::empty()) == dec(w) + "x"@ + dec(h),
{
    dec_reads_back(w);
    dec_reads_back(h);
    reveal_strlit(" fps");
    reveal_strlit(")");
    let size = dec(w) + "x"@ + dec(h);
    assert(is_digit(dec(w)[0]) && size[0] == dec(w)[0]);
    assert(is_digit(dec(h)[dec(h).len() - 1]) && size.last() == dec(h)[dec(h).len() - 1]);
    lemma_trimmed_stays(size);
    let rate = size + " @ "@ + f + " fps"@;
    assert(rate[0] == size[0] && rate.last() == 's');
    lemma_trimmed_stays(rate);
    let all = rate + " ("@ + c + ")"@;
    assert(all[0] == size[0] && all.last() == ')');
    lemma_trimmed_stays(all);
    let bare = size + " ("@ + c + ")"@;
    assert(bare[0] == size[0] && bare.last() == ')');
    lemma_trimmed_stays(bare);
}

/// The title of the window names the program and its version, and in front of
/// them what is at work and how far it is.
pub proof fn the_title_tells_what_is_at_work(percent: Seq<char>, what: Seq<char>)
    ensures
        title_of(None) == "Video Tool"@ + " v"@ + "0.2.0"@,
        title_of(Some((percent, what))) == percent + "% "@ + what + " - "@ + ("Video Tool"@ + " v"@
            + "0.2.0"@),
{
}

/// The title tells of a download that has a bar, and of a conversion only while
/// nothing is downloaded.
pub proof fn the_title_tells_of_the_download_first(dl_bar: bool, cv_busy: bool, cv_bar: bool)
    ensures
        titled(true, true, cv_busy, cv_bar) == Some("nav.download"@),
        titled(true, false, cv_busy, cv_bar) is None,
        titled(false, dl_bar, true, true) == Some("nav.convert"@),
        titled(false, dl_bar, cv_busy, false) is None,
        titled(false, dl_bar, false, cv_bar) is None,
{
}

/// An address is opened only where it is encrypted and holds no white space.
pub proof fn only_encrypted_addresses_are_opened(url: Seq<char>)
    ensures
        is_openable(url) <==> "https://"@.is_prefix_of(url) && !(exists|i: int|
            0 <= i < url.len() && is_space(#[trigger] url[i])),
{
}

proof fn lemma_done(items: Seq<QueueItem>)
    ensures
        items.filter(|e: QueueItem| !(e.state is Pending)).len() + count_of(
            items,
            QueueState::Pending,
        ) == items.len(),
    decreases items.len(),
{
    reveal(Seq::filter);
    if items.len() > 0 {
        lemma_done(items.drop_last());
    }
}

/// How far a queue is is told by the number of entries that do not wait any
/// more, of all of them.
pub proof fn the_position_counts_what_does_not_wait(lang: Lang, items: Seq<QueueItem>)
    ensures
        position_text(lang, items) == filled(
            phrase(lang, "dl.queue_running"@),
            seq![dec(items.filter(|e: QueueItem| !(e.state is Pending)).len()), dec(items.len())],
        ),
{
    lemma_done(items);
}

/// A value is shown behind its name, up to sixteen characters of it.
pub proof fn a_value_is_shown_behind_its_name(name: Seq<char>, value: Seq<char>)
    ensures
        value.len() <= 16 ==> chip_of(name, value) == name + ": "@ + value,
        value.len() > 16 ==> chip_of(name, value) == name + ": "@ + value.take(16),
{
    assert(value.take(value.len() as int) =~= value);
}

} // verus!
