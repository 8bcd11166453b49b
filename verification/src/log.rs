//! The live logs of the tabs.

use crate::consts::{APP_NAME, VERSION};
use crate::i18n::{phrase, t, Lang};
use crate::text::{
    any_within, contains_any, join, joined, lemma_first_piece, lemma_one_piece, lowered, opt_text,
    pieces, replace, replaced, split, starts_with, texts, to_lowercase, trim, trimmed, within,
};
use crate::types::Task;
use vstd::prelude::*;

verus! {

/// How many lines a log keeps.
pub const MAX_LOG: usize = 1200;

/// The lines of a message: carriage returns do not count.
pub open spec fn message_lines(message: Seq<char>) -> Seq<Seq<char>> {
    pieces(replaced(message, "\r"@, Seq::empty()), "\n"@)
}

/// At most the last lines that a log keeps.
pub open spec fn latest(lines: Seq<Seq<char>>) -> Seq<Seq<char>> {
    if lines.len() <= MAX_LOG {
        lines
    } else {
        lines.skip(lines.len() - MAX_LOG)
    }
}

/// Appends the lines of a message to a log. The oldest lines go where there are
/// too many.
pub fn push_log(log: &mut Vec<String>, message: &str)
    ensures
        texts(final(log)@) == latest(texts(old(log)@) + message_lines(message@)),
{
    proof {
        reveal_strlit("\r");
        reveal_strlit("\n");
        reveal_strlit("");
    }
    let plain = replace(message, "\r", "");
    assert(""@ =~= Seq::<char>::empty());
    let mut lines = split(plain.as_str(), "\n");
    let ghost before = texts(log@);
    let ghost added = texts(lines@);
    log.append(&mut lines);
    assert(texts(log@) =~= before + added);
    if log.len() > MAX_LOG {
        let excess = log.len() - MAX_LOG;
        let ghost all = log@;
        let tail = log.split_off(excess);
        *log = tail;
        assert(texts(log@) =~= texts(all).skip(excess as int));
    }
}

/// A log as one text, for a file or for the clipboard; none where it says
/// nothing.
pub open spec fn saved_text(lines: Seq<Seq<char>>, file: bool) -> Option<Seq<char>> {
    let text = joined(
        lines,
        if file {
            "\r\n"@
        } else {
            "\n"@
        },
    );
    if trimmed(text).len() == 0 {
        None
    } else {
        Some(text)
    }
}

/// The lines of a log as one text, to copy or to save; nothing where they are
/// blank. A file gets CRLF so it opens readably in Notepad, which is where a log
/// handed to someone else usually lands first.
pub fn log_text(log: &Vec<String>, file: bool) -> (r: Option<String>)
    ensures
        opt_text(r) == saved_text(texts(log@), file),
{
    let text = join(
        log,
        if file {
            "\r\n"
        } else {
            "\n"
        },
    );
    if trim(text.as_str()).as_str().is_empty() {
        None
    } else {
        Some(text)
    }
}

/// The name that a saved log is offered.
pub open spec fn log_name(task: Task) -> Seq<char> {
    match task {
        Task::Download => "video-tool-download.txt"@,
        Task::Convert => "video-tool-convert.txt"@,
    }
}

/// The name that a saved log is offered.
pub fn log_file_name(task: Task) -> (r: &'static str)
    ensures
        r@ == log_name(task),
{
    match task {
        Task::Download => "video-tool-download.txt",
        Task::Convert => "video-tool-convert.txt",
    }
}

/// A text so many times in a row.
pub open spec fn repeated(c: char, n: nat) -> Seq<char> {
    Seq::new(n, |i: int| c)
}

/// What stands in the log of the Download tab before anything ran.
pub open spec fn first_lines(lang: Lang) -> Seq<Seq<char>> {
    seq![
        "  "@ + APP_NAME@ + " v"@ + VERSION@,
        "  "@ + repeated('-', 36),
        Seq::empty(),
        phrase(lang, "log.ready_downloads"@),
    ]
}

/// What stands in the log of the Download tab before anything ran.
pub fn opening_lines(lang: Lang) -> (r: Vec<String>)
    ensures
        texts(r@) == first_lines(lang),
{
    let mut head = "  ".to_owned();
    head.append(APP_NAME);
    head.append(" v");
    head.append(VERSION);
    let mut rule = "  ".to_owned();
    let ghost start = rule@;
    for i in 0..36usize
        invariant
            rule@ == start + repeated('-', i as nat),
    {
        rule.push('-');
        assert(rule@ =~= start + repeated('-', (i + 1) as nat));
    }
    let mut out: Vec<String> = Vec::new();
    out.push(head);
    out.push(rule);
    out.push(String::new());
    out.push(t(lang, "log.ready_downloads").to_owned());
    assert(texts(out@) =~= first_lines(lang));
    out
}

// ---------------- colours ----------------

/// What a line of a log is about.
#[derive(Clone, Copy, PartialEq, Eq, Structural, Debug)]
pub enum LineKind {
    /// A rule or a heading.
    Rule,
    Trouble,
    Success,
    Progress,
    Plain,
}

pub const TROUBLE_WORDS: [&'static str; 5] = ["error", "failed", "traceback", "warning", "warn"];

pub const SUCCESS_WORDS: [&'static str; 3] = ["success", "completed", "complete"];

pub const PROGRESS_WORDS: [&'static str; 6] = [
    "download:",
    "%|",
    "frame=",
    "fps=",
    "speed=",
    "bitrate=",
];

/// What a line is about; `lower` is its lowercase form.
pub open spec fn kind_of(line: Seq<char>, lower: Seq<char>) -> LineKind {
    if "==="@.is_prefix_of(line) || "---"@.is_prefix_of(line) {
        LineKind::Rule
    } else if any_within(lower, TROUBLE_WORDS@) {
        LineKind::Trouble
    } else if any_within(lower, SUCCESS_WORDS@) {
        LineKind::Success
    } else if any_within(lower, PROGRESS_WORDS@) {
        LineKind::Progress
    } else {
        LineKind::Plain
    }
}

/// What a line is about; `lower` is its lowercase form.
pub fn line_kind(line: &str, lower: &str) -> (r: LineKind)
    ensures
        r == kind_of(line@, lower@),
{
    if starts_with(line, "===") || starts_with(line, "---") {
        LineKind::Rule
    } else if contains_any(lower, &TROUBLE_WORDS) {
        LineKind::Trouble
    } else if contains_any(lower, &SUCCESS_WORDS) {
        LineKind::Success
    } else if contains_any(lower, &PROGRESS_WORDS) {
        LineKind::Progress
    } else {
        LineKind::Plain
    }
}

/// The colour of a kind of line as red, green and blue. Both palettes carry the
/// same meanings; the light one only darkens them enough to stay readable on a
/// pale background.
pub open spec fn color_of(kind: LineKind, dark: bool) -> (u8, u8, u8) {
    match (kind, dark) {
        (LineKind::Rule, true) => (159, 168, 218),
        (LineKind::Rule, false) => (63, 81, 181),
        (LineKind::Trouble, true) => (239, 154, 154),
        (LineKind::Trouble, false) => (183, 28, 28),
        (LineKind::Success, true) => (165, 214, 167),
        (LineKind::Success, false) => (27, 94, 32),
        (LineKind::Progress, true) => (128, 222, 234),
        (LineKind::Progress, false) => (0, 105, 122),
        (LineKind::Plain, true) => (200, 200, 200),
        (LineKind::Plain, false) => (55, 55, 60),
    }
}

/// The colour of a kind of line.
pub fn kind_color(kind: LineKind, dark: bool) -> (r: (u8, u8, u8))
    ensures
        r == color_of(kind, dark),
{
    match kind {
        LineKind::Rule => if dark {
            (159, 168, 218)
        } else {
            (63, 81, 181)
        },
        LineKind::Trouble => if dark {
            (239, 154, 154)
        } else {
            (183, 28, 28)
        },
        LineKind::Success => if dark {
            (165, 214, 167)
        } else {
            (27, 94, 32)
        },
        LineKind::Progress => if dark {
            (128, 222, 234)
        } else {
            (0, 105, 122)
        },
        LineKind::Plain => if dark {
            (200, 200, 200)
        } else {
            (55, 55, 60)
        },
    }
}

/// The colour of one log line.
pub fn log_color(line: &str, dark: bool) -> (r: (u8, u8, u8))
    ensures
        r == color_of(kind_of(line@, lowered(line@)), dark),
{
    kind_color(line_kind(line, to_lowercase(line).as_str()), dark)
}

// ---------------- laws ----------------

/// A log never grows past its limit, and what it loses is its oldest lines: the
/// last ones are those of the message.
pub proof fn a_log_keeps_its_latest_lines(log: Seq<Seq<char>>, message: Seq<char>)
    ensures
        latest(log + message_lines(message)).len() <= MAX_LOG,
        latest(log + message_lines(message)).is_suffix_of(log + message_lines(message)),
        log.len() + message_lines(message).len() <= MAX_LOG ==> latest(log + message_lines(message))
            == log + message_lines(message),
        message_lines(message).len() <= MAX_LOG ==> message_lines(message).is_suffix_of(
            latest(log + message_lines(message)),
        ),
{
    let all = log + message_lines(message);
    let l = latest(all);
    let m = message_lines(message);
    assert(l =~= all.skip(all.len() - l.len()));
    if m.len() <= MAX_LOG {
        assert(l.skip(l.len() - m.len()) =~= m);
    }
}

/// A message is logged line by line, however its lines end.
pub proof fn a_message_is_logged_by_its_lines(a: Seq<char>, b: Seq<char>)
    requires
        !a.contains('\r') && !a.contains('\n'),
        !b.contains('\r') && !b.contains('\n'),
    ensures
        message_lines(a) == seq![a],
        message_lines(a + seq!['\n'] + b) == seq![a, b],
        message_lines(a + seq!['\r', '\n'] + b) == seq![a, b],
{
    reveal_strlit("\r");
    reveal_strlit("\n");
    assert("\r"@ =~= seq!['\r']);
    assert("\n"@ =~= seq!['\n']);
    let none = Seq::<char>::empty();
    let two = a + seq!['\n'] + b;
    assert(two =~= a.push('\n') + b);
    assert(!two.contains('\r')) by {
        if two.contains('\r') {
            let i = choose|i: int| 0 <= i < two.len() && two[i] == '\r';
            if i < a.len() {
                assert(a[i] == '\r');
            } else if i > a.len() {
                assert(b[i - a.len() - 1] == '\r');
            }
        }
    }
    lemma_one_piece(a, '\r');
    lemma_one_piece(two, '\r');
    lemma_one_piece(a, '\n');
    lemma_one_piece(b, '\n');
    lemma_first_piece(a, '\n', b);
    assert(pieces(a, "\r"@) =~= seq![a]);
    assert(pieces(two, "\r"@) =~= seq![two]);
    assert(pieces(two, "\n"@) =~= seq![a, b]);
    assert(replaced(a, "\r"@, none) == a);
    assert(replaced(two, "\r"@, none) == two);
    let crlf = a + seq!['\r', '\n'] + b;
    let rest = seq!['\n'] + b;
    assert(crlf =~= a.push('\r') + rest);
    assert(!rest.contains('\r')) by {
        if rest.contains('\r') {
            let i = choose|i: int| 0 <= i < rest.len() && rest[i] == '\r';
            if i > 0 {
                assert(b[i - 1] == '\r');
            }
        }
    }
    lemma_first_piece(a, '\r', rest);
    lemma_one_piece(rest, '\r');
    assert(pieces(crlf, "\r"@) =~= seq![a, rest]);
    assert(seq![a, rest].drop_last() =~= seq![a]);
    assert(joined(seq![a], none) == a);
    assert(replaced(crlf, "\r"@, none) =~= two);
}

/// A log holds twelve hundred lines.
pub proof fn a_log_holds_twelve_hundred_lines(lines: Seq<Seq<char>>)
    ensures
        lines.len() <= 1200 ==> latest(lines) == lines,
        lines.len() > 1200 ==> latest(lines) == lines.skip(lines.len() - 1200),
{
}

/// Each job has its own file to save its log to.
pub proof fn each_log_has_its_own_file()
    ensures
        log_name(Task::Download) == "video-tool-download.txt"@,
        log_name(Task::Convert) == "video-tool-convert.txt"@,
{
}

/// A log opens with the name and the version of the program.
pub proof fn a_log_opens_with_the_name(lang: Lang)
    ensures
        first_lines(lang)[0] == "  "@ + "Video Tool"@ + " v"@ + "0.2.0"@,
        first_lines(lang)[3] == phrase(lang, "log.ready_downloads"@),
        first_lines(lang).len() == 4,
{
}

/// A rule is told by its first three characters, and every other line by the
/// words in it: what tells of trouble comes first, then success, then progress.
pub proof fn a_line_is_told_by_its_words(line: Seq<char>, lower: Seq<char>)
    ensures
        ({
            let rule = "==="@.is_prefix_of(line) || "---"@.is_prefix_of(line);
            let trouble = within(lower, "error"@) || within(lower, "failed"@) || within(
                lower,
                "traceback"@,
            ) || within(lower, "warning"@) || within(lower, "warn"@);
            let success = within(lower, "success"@) || within(lower, "completed"@) || within(
                lower,
                "complete"@,
            );
            let progress = within(lower, "download:"@) || within(lower, "%|"@) || within(
                lower,
                "frame="@,
            ) || within(lower, "fps="@) || within(lower, "speed="@) || within(lower, "bitrate="@);
            let k = kind_of(line, lower);
            &&& rule ==> k is Rule
            &&& !rule && trouble ==> k is Trouble
            &&& !rule && !trouble && success ==> k is Success
            &&& !rule && !trouble && !success && progress ==> k is Progress
            &&& !rule && !trouble && !success && !progress ==> k is Plain
        }),
{
    assert(TROUBLE_WORDS@[0]@ == "error"@ && TROUBLE_WORDS@[1]@ == "failed"@);
    assert(TROUBLE_WORDS@[2]@ == "traceback"@ && TROUBLE_WORDS@[3]@ == "warning"@);
    assert(TROUBLE_WORDS@[4]@ == "warn"@ && TROUBLE_WORDS@.len() == 5);
    assert(SUCCESS_WORDS@[0]@ == "success"@ && SUCCESS_WORDS@[1]@ == "completed"@);
    assert(SUCCESS_WORDS@[2]@ == "complete"@ && SUCCESS_WORDS@.len() == 3);
    assert(PROGRESS_WORDS@[0]@ == "download:"@ && PROGRESS_WORDS@[1]@ == "%|"@);
    assert(PROGRESS_WORDS@[2]@ == "frame="@ && PROGRESS_WORDS@[3]@ == "fps="@);
    assert(PROGRESS_WORDS@[4]@ == "speed="@ && PROGRESS_WORDS@[5]@ == "bitrate="@);
    assert(PROGRESS_WORDS@.len() == 6);
}

/// Lines of two kinds never look alike; trouble is red and success is green, on
/// a dark ground as on a light one.
pub proof fn kinds_are_told_apart_by_color(a: LineKind, b: LineKind, dark: bool)
    ensures
        a != b ==> color_of(a, dark) != color_of(b, dark),
        ({
            let t = color_of(LineKind::Trouble, dark);
            t.0 > t.1 && t.0 > t.2
        }),
        ({
            let s = color_of(LineKind::Success, dark);
            s.1 > s.0 && s.1 > s.2
        }),
        color_of(LineKind::Plain, true).0 > color_of(LineKind::Plain, false).0,
{
}

/// A log is saved line by line, in a file with the line ends of Windows; one
/// that says nothing is not saved.
pub proof fn a_log_is_saved_by_its_lines(a: Seq<char>, b: Seq<char>)
    ensures
        trimmed(a + "\r\n"@ + b).len() > 0 ==> saved_text(seq![a, b], true) == Some(
            a + "\r\n"@ + b,
        ),
        trimmed(a + "\n"@ + b).len() > 0 ==> saved_text(seq![a, b], false) == Some(a + "\n"@ + b),
        trimmed(a).len() == 0 ==> saved_text(seq![a], true) is None && saved_text(
            seq![a],
            false,
        ) is None,
        trimmed(a).len() > 0 ==> saved_text(seq![a], true) == Some(a),
{
    assert(seq![a, b].drop_last() =~= seq![a]);
    assert(joined(seq![a], "\n"@) == a && joined(seq![a], "\r\n"@) == a);
    assert(joined(seq![a, b], "\n"@) == a + "\n"@ + b);
    assert(joined(seq![a, b], "\r\n"@) == a + "\r\n"@ + b);
}

/// The colors of the lines, on a dark ground and on a light one.
pub proof fn lines_have_these_colors()
    ensures
        color_of(LineKind::Rule, true) == (159u8, 168u8, 218u8),
        color_of(LineKind::Rule, false) == (63u8, 81u8, 181u8),
        color_of(LineKind::Trouble, true) == (239u8, 154u8, 154u8),
        color_of(LineKind::Trouble, false) == (183u8, 28u8, 28u8),
        color_of(LineKind::Success, true) == (165u8, 214u8, 167u8),
        color_of(LineKind::Success, false) == (27u8, 94u8, 32u8),
        color_of(LineKind::Progress, true) == (128u8, 222u8, 234u8),
        color_of(LineKind::Progress, false) == (0u8, 105u8, 122u8),
        color_of(LineKind::Plain, true) == (200u8, 200u8, 200u8),
        color_of(LineKind::Plain, false) == (55u8, 55u8, 60u8),
{
}

} // verus!
