//! When the answer of an earlier probe of the tools still holds.
//!
//! Asking yt-dlp and FFmpeg for their versions costs seconds - both unpack
//! themselves before they answer - and the answer only changes when the
//! binaries do.

use crate::consts::VERSION;
use crate::number::{dec, dec_injective, dec_reads_back, u64_text};
use crate::text::{opt_text, same};
use vstd::prelude::*;

verus! {

/// Where the last probe of the tools is kept among the settings.
pub const PROBE_CACHE_KEY: &'static str = "binary_probe_cache";

/// The size of a file and when it was last changed.
pub type Stamp = (u64, u64);

/// What is written down of a file; a dash where there is none.
pub open spec fn stamp_text(s: Option<Stamp>) -> Seq<char> {
    match s {
        Some((size, changed)) => dec(size as nat).push(':') + dec(changed as nat),
        None => seq!['-'],
    }
}

/// What is written down of some files, each with a semicolon behind it.
pub open spec fn stamps_text(files: Seq<Option<Stamp>>) -> Seq<char>
    decreases files.len(),
{
    if files.len() == 0 {
        seq![]
    } else {
        stamp_text(files[0]).push(';') + stamps_text(files.skip(1))
    }
}

/// One of some files is there.
pub open spec fn any_file(files: Seq<Option<Stamp>>) -> bool {
    exists|i: int| 0 <= i < files.len() && #[trigger] files[i] is Some
}

fn push_stamp(out: &mut String, s: Option<Stamp>)
    ensures
        final(out)@ == old(out)@ + stamp_text(s).push(';'),
{
    match s {
        Some((size, changed)) => {
            out.append(u64_text(size).as_str());
            out.push(':');
            out.append(u64_text(changed).as_str());
        },
        None => {
            out.push('-');
        },
    }
    out.push(';');
    assert(out@ =~= old(out)@ + stamp_text(s).push(';'));
}

/// What the files are known by; nothing where none of them is there.
pub open spec fn print_of(files: Seq<Option<Stamp>>) -> Option<Seq<char>> {
    if any_file(files) {
        Some(stamps_text(files))
    } else {
        None
    }
}

/// What was learned of the files by a program of this version still holds.
pub open spec fn still_holds(app: Seq<char>, seen: Seq<char>, files: Seq<Option<Stamp>>) -> bool {
    app == VERSION@ && any_file(files) && seen == stamps_text(files)
}

/// What tells the files of the tools from other ones: their sizes and the times
/// of their last changes. There is nothing to tell where none is there.
pub fn fingerprint(files: &Vec<Option<Stamp>>) -> (r: Option<String>)
    ensures
        opt_text(r) == print_of(files@),
{
    let n = files.len();
    let mut out = String::new();
    let mut found = false;
    let mut i: usize = 0;
    assert(files@.skip(0) =~= files@);
    assert(out@ + stamps_text(files@.skip(0)) =~= stamps_text(files@));
    while i < n
        invariant
            n == files@.len(),
            i <= n,
            out@ + stamps_text(files@.skip(i as int)) == stamps_text(files@),
            found == exists|j: int| 0 <= j < i && #[trigger] files@[j] is Some,
        decreases n - i,
    {
        let ghost before = out@;
        let ghost rest = files@.skip(i as int);
        assert(rest[0] == files@[i as int]);
        assert(rest.skip(1) =~= files@.skip(i + 1));
        push_stamp(&mut out, files[i]);
        assert(out@ + stamps_text(files@.skip(i + 1)) =~= before + stamps_text(rest));
        if files[i].is_some() {
            found = true;
        }
        i += 1;
    }
    assert(files@.skip(n as int) =~= Seq::<Option<Stamp>>::empty());
    assert(out@ =~= stamps_text(files@));
    if found {
        Some(out)
    } else {
        None
    }
}

/// Whether an earlier probe still holds: it was written by this build - a new
/// one re-probes once rather than trusting a result an older probe produced -
/// and the files are those it saw.
pub fn probe_holds(app: &str, seen: &str, files: &Vec<Option<Stamp>>) -> (r: bool)
    ensures
        r == still_holds(app@, seen@, files@),
{
    match fingerprint(files) {
        Some(now) => same(app, VERSION) && same(seen, now.as_str()),
        None => false,
    }
}

// ---------------- laws ----------------

proof fn lemma_stamp_text(s: Option<Stamp>)
    ensures
        forall|i: int| 0 <= i < stamp_text(s).len() ==> #[trigger] stamp_text(s)[i] != ';',
{
    if let Some((size, changed)) = s {
        dec_reads_back(size as nat);
        dec_reads_back(changed as nat);
        let a = dec(size as nat);
        let b = dec(changed as nat);
        let t = stamp_text(s);
        assert forall|i: int| 0 <= i < t.len() implies #[trigger] t[i] != ';' by {
            if i < a.len() {
                assert(t[i] == a[i]);
            } else if i > a.len() {
                assert(t[i] == b[i - a.len() - 1]);
            }
        }
    }
}

/// What stands before the first mark is the same in two equal texts.
proof fn lemma_same_head(a: Seq<char>, x: Seq<char>, b: Seq<char>, y: Seq<char>, mark: char)
    requires
        a.push(mark) + x == b.push(mark) + y,
        forall|i: int| 0 <= i < a.len() ==> #[trigger] a[i] != mark,
        forall|i: int| 0 <= i < b.len() ==> #[trigger] b[i] != mark,
    ensures
        a == b,
        x == y,
{
    let s = a.push(mark) + x;
    let t = b.push(mark) + y;
    if a.len() < b.len() {
        assert(s[a.len() as int] == mark);
        assert(t[a.len() as int] == b[a.len() as int]);
    } else if b.len() < a.len() {
        assert(t[b.len() as int] == mark);
        assert(s[b.len() as int] == a[b.len() as int]);
    }
    assert forall|i: int| 0 <= i < a.len() implies a[i] == b[i] by {
        assert(s[i] == a[i] && t[i] == b[i]);
    }
    assert(a =~= b);
    assert(s.skip((a.len() + 1) as int) =~= x);
    assert(t.skip((b.len() + 1) as int) =~= y);
}

proof fn lemma_one_stamp(a: Option<Stamp>, b: Option<Stamp>)
    requires
        stamp_text(a) == stamp_text(b),
    ensures
        a == b,
{
    match (a, b) {
        (Some((s, c)), Some((t, d))) => {
            dec_reads_back(s as nat);
            dec_reads_back(t as nat);
            lemma_same_head(dec(s as nat), dec(c as nat), dec(t as nat), dec(d as nat), ':');
            dec_injective(s as nat, t as nat);
            dec_injective(c as nat, d as nat);
        },
        (Some((s, c)), None) => {
            dec_reads_back(s as nat);
            assert(stamp_text(a)[0] == dec(s as nat)[0]);
        },
        (None, Some((t, d))) => {
            dec_reads_back(t as nat);
            assert(stamp_text(b)[0] == dec(t as nat)[0]);
        },
        (None, None) => {},
    }
}

/// A binary that was installed, updated or taken away is noticed: what is
/// written down of the files is the same only for files with the same sizes and
/// times.
pub proof fn a_changed_binary_is_noticed(a: Seq<Option<Stamp>>, b: Seq<Option<Stamp>>)
    requires
        a.len() == b.len(),
        stamps_text(a) == stamps_text(b),
    ensures
        a == b,
    decreases a.len(),
{
    if a.len() > 0 {
        lemma_stamp_text(a[0]);
        lemma_stamp_text(b[0]);
        lemma_same_head(
            stamp_text(a[0]),
            stamps_text(a.skip(1)),
            stamp_text(b[0]),
            stamps_text(b.skip(1)),
            ';',
        );
        lemma_one_stamp(a[0], b[0]);
        a_changed_binary_is_noticed(a.skip(1), b.skip(1));
        assert(a =~= seq![a[0]] + a.skip(1));
        assert(b =~= seq![b[0]] + b.skip(1));
    } else {
        assert(a =~= b);
    }
}

/// What was learned holds for the files it was learned of, and only for this
/// version of the program; once a file has changed it does not.
pub proof fn what_was_learned_holds_for_the_same_files(
    app: Seq<char>,
    a: Seq<Option<Stamp>>,
    b: Seq<Option<Stamp>>,
)
    requires
        a.len() == b.len(),
        print_of(a) is Some,
    ensures
        still_holds("0.2.0"@, print_of(a)->0, a),
        app != "0.2.0"@ ==> !still_holds(app, print_of(a)->0, a),
        a != b ==> !still_holds(app, print_of(a)->0, b),
        print_of(a)->0 == stamps_text(a),
{
    if still_holds(app, print_of(a)->0, b) {
        a_changed_binary_is_noticed(a, b);
    }
}

/// Files are known as soon as one of them is there.
pub proof fn one_file_is_enough(files: Seq<Option<Stamp>>, i: int)
    ensures
        0 <= i < files.len() && files[i] is Some ==> print_of(files) is Some,
        (forall|j: int| 0 <= j < files.len() ==> #[trigger] files[j] is None) ==> print_of(files)
            is None,
{
}

} // verus!
