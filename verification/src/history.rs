//! The list of finished jobs shown in the History tab.
//!
//! Entries live in the same JSON config as every other setting, so the list
//! survives a restart without a second store to keep consistent. Only what
//! the tab can act on is kept - a path, the URL a download came from and the
//! preset it ran with; nothing about the media itself is cached, because the
//! file on disk is the authority and may well be gone by the next start.

use crate::consts::HISTORY_LIMIT;
use crate::path::{file_name_at, parent_at, path_file_name, path_of, path_parent, route_of};
use crate::text::{opt_str, opt_text, same};
use vstd::prelude::*;

verus! {

pub const HISTORY_KEY: &'static str = "history";

/// The sign of a kind of run.
pub open spec fn sign_of(kind: Kind) -> Seq<char> {
    match kind {
        Kind::Download => "⬇"@,
        Kind::Convert => "⚙"@,
    }
}

/// Which tab produced an entry.
#[derive(Clone, Copy, PartialEq, Eq, Structural, Debug)]
pub enum Kind {
    Download,
    Convert,
}

impl Kind {
    pub fn icon(self) -> (r: &'static str)
        ensures
            r@ == sign_of(self),
    {
        match self {
            Kind::Download => "⬇",
            Kind::Convert => "⚙",
        }
    }
}

#[derive(Clone, Debug)]
pub struct Entry {
    pub kind: Kind,
    /// File name, or the URL when the run never named a file.
    pub name: String,
    /// Absolute path, empty when unknown.
    pub path: String,
    /// Source URL for downloads, empty for conversions.
    pub url: String,
    /// Quality preset or codec, shown as the entry's second line.
    pub detail: String,
    /// Unix seconds; 0 for an entry written by a build without a clock.
    pub when: u64,
}

impl Default for Entry {
    fn default() -> (r: Self)
        ensures
            r.kind == Kind::Download,
            r.name@ == Seq::<char>::empty(),
            r.path@ == Seq::<char>::empty(),
            r.url@ == Seq::<char>::empty(),
            r.detail@ == Seq::<char>::empty(),
            r.when == 0,
    {
        Entry {
            kind: Kind::Download,
            name: String::new(),
            path: String::new(),
            url: String::new(),
            detail: String::new(),
            when: 0,
        }
    }
}

/// `r` is the directory of a file whose path is read in one way.
pub open spec fn is_parent_in(r: Option<Seq<char>>, path: Seq<char>, windows: bool) -> bool {
    r == parent_at(path, windows)
}

/// `r` is the directory of a file.
pub open spec fn is_parent(r: Option<Seq<char>>, path: Seq<char>) -> bool {
    exists|windows: bool| is_parent_in(r, path, windows)
}

impl Entry {
    /// Whether the file is still there; `on_disk` says whether something stands
    /// at the path.
    pub fn present(&self, on_disk: bool) -> (r: bool)
        ensures
            r == (self.path@.len() > 0 && on_disk),
    {
        !self.path.as_str().is_empty() && on_disk
    }

    /// The folder the file sits in, for "open containing folder"; nothing where
    /// `is_dir` says that none stands there.
    pub fn folder(&self, is_dir: bool) -> (r: Option<String>)
        ensures
            !is_dir ==> r is None,
            is_dir ==> is_parent(opt_text(r), self.path@),
    {
        if is_dir {
            self.parent()
        } else {
            None
        }
    }

    /// The path at which the folder of the file has to stand.
    pub fn parent(&self) -> (r: Option<String>)
        ensures
            is_parent(opt_text(r), self.path@),
    {
        let p = path_of(self.path.as_str());
        let r = path_parent(&p);
        assert(is_parent_in(opt_text(r), self.path@, route_of(p).windows));
        r
    }
}

// ---------------- the list ----------------

/// The entries of a list that could be read, in order.
pub open spec fn readable(items: Seq<Option<Entry>>) -> Seq<Entry>
    decreases items.len(),
{
    if items.len() == 0 {
        seq![]
    } else {
        match items.last() {
            Some(e) => readable(items.drop_last()).push(e),
            None => readable(items.drop_last()),
        }
    }
}

/// At most as many entries as a list may hold.
pub open spec fn limited(s: Seq<Entry>) -> Seq<Entry> {
    if s.len() <= HISTORY_LIMIT {
        s
    } else {
        s.take(HISTORY_LIMIT as int)
    }
}

/// Reads the stored list. A malformed entry drops out rather than taking the
/// whole history with it - one bad record should not cost the user the rest.
pub fn load(items: Vec<Option<Entry>>) -> (r: Vec<Entry>)
    ensures
        r@ == limited(readable(items@)),
{
    let mut out: Vec<Entry> = Vec::new();
    let mut rest = items;
    let ghost all = items@;
    let n = rest.len();
    let mut i: usize = 0;
    assert(all.take(0) =~= Seq::<Option<Entry>>::empty());
    assert(all.skip(0) =~= all);
    while i < n
        invariant
            n == all.len(),
            i <= n,
            rest@ == all.skip(i as int),
            out@ == readable(all.take(i as int)),
        decreases n - i,
    {
        let item = rest.remove(0);
        assert(item == all[i as int]);
        assert(rest@ =~= all.skip(i + 1));
        assert(all.take(i + 1).drop_last() =~= all.take(i as int));
        assert(all.take(i + 1).last() == all[i as int]);
        match item {
            Some(e) => out.push(e),
            None => {},
        }
        i += 1;
    }
    assert(all.take(n as int) =~= all);
    if out.len() > HISTORY_LIMIT {
        out.truncate(HISTORY_LIMIT);
    }
    assert(out@ =~= limited(readable(all)));
    out
}

/// The entries to store.
pub fn store(entries: &[Entry]) -> (r: &[Entry])
    ensures
        r@ == limited(entries@),
{
    let n: usize = if entries.len() < HISTORY_LIMIT {
        entries.len()
    } else {
        HISTORY_LIMIT
    };
    let r = vstd::slice::slice_subrange(entries, 0, n);
    assert(r@ =~= limited(entries@));
    r
}

/// The entries of other files than the one at `path`.
pub open spec fn others(s: Seq<Entry>, path: Seq<char>) -> Seq<Entry>
    decreases s.len(),
{
    if s.len() == 0 {
        seq![]
    } else if s.last().path@ == path {
        others(s.drop_last(), path)
    } else {
        others(s.drop_last(), path).push(s.last())
    }
}

/// A list without the entries of a file; an empty path stands for no file.
pub open spec fn without_file(s: Seq<Entry>, path: Seq<char>) -> Seq<Entry> {
    if path.len() == 0 {
        s
    } else {
        others(s, path)
    }
}

/// A list with a new entry.
pub open spec fn pushed(s: Seq<Entry>, entry: Entry) -> Seq<Entry> {
    limited(seq![entry] + without_file(s, entry.path@))
}

fn drop_file(entries: &mut Vec<Entry>, path: &str)
    ensures
        final(entries)@ == others(old(entries)@, path@),
{
    let ghost all = entries@;
    let n = entries.len();
    let mut seen: usize = 0;
    let mut i: usize = 0;
    assert(all.take(0) =~= Seq::<Entry>::empty());
    assert(entries@ =~= others(all.take(0), path@) + all.skip(0));
    while seen < n
        invariant
            n == all.len(),
            seen <= n,
            i == others(all.take(seen as int), path@).len(),
            i <= seen,
            entries@ == others(all.take(seen as int), path@) + all.skip(seen as int),
        decreases n - seen,
    {
        let ghost kept = others(all.take(seen as int), path@);
        assert(all.take(seen + 1).drop_last() =~= all.take(seen as int));
        assert(all.take(seen + 1).last() == all[seen as int]);
        assert(entries@[i as int] == all[seen as int]);
        if same(entries[i].path.as_str(), path) {
            let _ = entries.remove(i);
            assert(entries@ =~= kept + all.skip(seen + 1));
        } else {
            assert(entries@ =~= kept.push(all[seen as int]) + all.skip(seen + 1));
            i += 1;
        }
        seen += 1;
    }
    assert(all.take(n as int) =~= all);
    assert(entries@ =~= others(all, path@));
}

/// Puts `entry` at the front, dropping an older record of the same file.
///
/// Converting the same source twice is a normal way to work, and a list that
/// filled up with repeats of one name would hide everything else.
pub fn push(entries: &mut Vec<Entry>, entry: Entry)
    ensures
        final(entries)@ == pushed(old(entries)@, entry),
{
    proof {
        lemma_others(entries@, entry.path@);
    }
    if !entry.path.as_str().is_empty() {
        drop_file(entries, entry.path.as_str());
    }
    let ghost kept = entries@;
    entries.insert(0, entry);
    assert(entries@ =~= seq![entry] + kept);
    if entries.len() > HISTORY_LIMIT {
        entries.truncate(HISTORY_LIMIT);
    }
}

/// The name that a finished job goes by: that of its file, or its URL.
pub open spec fn job_name(file: Option<Seq<char>>, url: Seq<char>) -> Seq<char> {
    match file {
        Some(n) => if n.len() > 0 {
            n
        } else {
            url
        },
        None => url,
    }
}

/// The file name of a path that is read in one way.
pub open spec fn is_name_in(name: Option<Seq<char>>, path: Seq<char>, windows: bool) -> bool {
    name == file_name_at(path, windows)
}

/// The file name of a path, however it is read.
pub open spec fn is_name_at(name: Option<Seq<char>>, path: Seq<char>) -> bool {
    exists|windows: bool| is_name_in(name, path, windows)
}

/// The file name of a path, where there is one.
pub open spec fn is_name_of(name: Option<Seq<char>>, path: Option<Seq<char>>) -> bool {
    match path {
        Some(p) => is_name_at(name, p),
        None => name is None,
    }
}

/// The record of a finished job under a known name; nothing to remember where
/// that is empty.
pub fn job_entry(
    kind: Kind,
    file: Option<&str>,
    path: Option<&str>,
    url: &str,
    detail: &str,
    now: u64,
) -> (r: Option<Entry>)
    ensures
        r is Some == (job_name(opt_str(file), url@).len() > 0),
        r is Some ==> {
            &&& r->0.kind == kind
            &&& r->0.name@ == job_name(opt_str(file), url@)
            &&& r->0.path@ == (match path {
                Some(p) => p@,
                None => Seq::<char>::empty(),
            })
            &&& r->0.url@ == url@
            &&& r->0.detail@ == detail@
            &&& r->0.when == now
        },
{
    let name = match file {
        Some(n) => if n.is_empty() {
            url
        } else {
            n
        },
        None => url,
    };
    if name.is_empty() {
        return None;
    }
    let path = match path {
        Some(p) => p.to_owned(),
        None => String::new(),
    };
    Some(
        Entry {
            kind,
            name: name.to_owned(),
            path,
            url: url.to_owned(),
            detail: detail.to_owned(),
            when: now,
        },
    )
}

/// The record of a finished job; nothing to remember where it has neither a
/// file nor a URL.
pub fn finished_job(kind: Kind, path: Option<&str>, url: &str, detail: &str, now: u64) -> (r: Option<
    Entry,
>)
    ensures
        exists|name: Option<Seq<char>>| #[trigger]
            is_name_of(name, opt_str(path)) && r is Some == (job_name(name, url@).len() > 0) && (
            r is Some ==> r->0.name@ == job_name(name, url@)),
        r is Some ==> {
            &&& r->0.kind == kind
            &&& r->0.path@ == (match path {
                Some(p) => p@,
                None => Seq::<char>::empty(),
            })
            &&& r->0.url@ == url@
            &&& r->0.detail@ == detail@
            &&& r->0.when == now
        },
{
    let file = match path {
        Some(text) => {
            let p = path_of(text);
            let n = path_file_name(&p);
            assert(is_name_in(opt_text(n), text@, route_of(p).windows));
            n
        },
        None => None,
    };
    assert(is_name_of(opt_text(file), opt_str(path)));
    match file {
        Some(n) => job_entry(kind, Some(n.as_str()), path, url, detail, now),
        None => job_entry(kind, None, path, url, detail, now),
    }
}

/// An entry is shown under a filter: that of its tab, or any other for all.
pub open spec fn is_shown(kind: Kind, filter: Seq<char>) -> bool {
    if filter == "download"@ {
        kind == Kind::Download
    } else if filter == "convert"@ {
        kind == Kind::Convert
    } else {
        true
    }
}

/// Whether an entry is shown under a filter.
pub fn matches_filter(e: &Entry, filter: &str) -> (r: bool)
    ensures
        r == is_shown(e.kind, filter@),
{
    if same(filter, "download") {
        e.kind == Kind::Download
    } else if same(filter, "convert") {
        e.kind == Kind::Convert
    } else {
        true
    }
}

/// How many of some entries are shown under a filter.
pub open spec fn shown_of(s: Seq<Entry>, filter: Seq<char>) -> nat
    decreases s.len(),
{
    if s.len() == 0 {
        0
    } else {
        shown_of(s.drop_last(), filter) + if is_shown(s.last().kind, filter) {
            1nat
        } else {
            0nat
        }
    }
}

/// How many of some entries are shown under a filter.
pub fn count_shown(entries: &Vec<Entry>, filter: &str) -> (r: usize)
    ensures
        r == shown_of(entries@, filter@),
{
    let mut n: usize = 0;
    assert(entries@.take(0) =~= Seq::<Entry>::empty());
    for i in 0..entries.len()
        invariant
            n == shown_of(entries@.take(i as int), filter@),
            n <= i,
    {
        assert(entries@.take(i + 1).drop_last() =~= entries@.take(i as int));
        if matches_filter(&entries[i], filter) {
            n += 1;
        }
    }
    assert(entries@.take(entries@.len() as int) =~= entries@);
    n
}

// ---------------- laws ----------------

proof fn lemma_others(s: Seq<Entry>, path: Seq<char>)
    ensures
        others(s, path).len() <= s.len(),
        forall|i: int|
            0 <= i < others(s, path).len() ==> (#[trigger] others(s, path)[i]).path@ != path,
        forall|i: int| 0 <= i < others(s, path).len() ==> s.contains(#[trigger] others(s, path)[i]),
        forall|i: int|
            0 <= i < s.len() && (#[trigger] s[i]).path@ != path ==> others(s, path).contains(s[i]),
    decreases s.len(),
{
    if s.len() > 0 {
        let d = s.drop_last();
        let o = others(d, path);
        lemma_others(d, path);
        let all = others(s, path);
        assert forall|i: int| 0 <= i < all.len() implies s.contains(#[trigger] all[i]) by {
            if i < o.len() {
                assert(all[i] == o[i]);
                let k = choose|k: int| 0 <= k < d.len() && d[k] == o[i];
                assert(s[k] == all[i]);
            } else {
                assert(s[s.len() - 1] == all[i]);
            }
        }
        assert forall|i: int| 0 <= i < all.len() implies (#[trigger] all[i]).path@ != path by {
            if i < o.len() {
                assert(all[i] == o[i]);
            }
        }
        assert forall|i: int| 0 <= i < s.len() && (#[trigger] s[i]).path@ != path implies all.contains(
            s[i],
        ) by {
            if i < d.len() {
                assert(d[i] == s[i]);
                let k = choose|k: int| 0 <= k < o.len() && o[k] == d[i];
                assert(all[k] == s[i]);
            } else {
                assert(all[all.len() - 1] == s[i]);
            }
        }
    }
}

/// The newest run of a file is the one that is kept: it stands at the front,
/// and no other entry of the list is about the same file.
pub proof fn the_newest_run_is_kept(s: Seq<Entry>, entry: Entry)
    ensures
        pushed(s, entry).len() > 0,
        pushed(s, entry)[0] == entry,
        entry.path@.len() > 0 ==> forall|i: int|
            0 < i < pushed(s, entry).len() ==> (#[trigger] pushed(s, entry)[i]).path@ != entry.path@,
{
    lemma_others(s, entry.path@);
    let kept = without_file(s, entry.path@);
    let all = seq![entry] + kept;
    assert forall|i: int| 0 < i < pushed(s, entry).len() implies (#[trigger] pushed(
        s,
        entry,
    )[i]) == kept[i - 1] by {
        assert(pushed(s, entry)[i] == all[i]);
    }
}

/// The list never grows past its limit.
pub proof fn a_list_stays_in_its_limit(s: Seq<Entry>, entry: Entry)
    ensures
        pushed(s, entry).len() <= HISTORY_LIMIT,
        limited(s).len() <= HISTORY_LIMIT,
{
}

/// No file is in a list twice.
pub open spec fn no_repeats(s: Seq<Entry>) -> bool {
    forall|i: int, j: int|
        0 <= i < j < s.len() && (#[trigger] s[i]).path@.len() > 0 ==> s[i].path@ != (
        #[trigger] s[j]).path@
}

proof fn lemma_others_no_repeats(s: Seq<Entry>, path: Seq<char>)
    requires
        no_repeats(s),
    ensures
        no_repeats(others(s, path)),
    decreases s.len(),
{
    if s.len() > 0 {
        let d = s.drop_last();
        assert forall|i: int, j: int|
            0 <= i < j < d.len() && (#[trigger] d[i]).path@.len() > 0 implies d[i].path@ != (
        #[trigger] d[j]).path@ by {
            assert(d[i] == s[i] && d[j] == s[j]);
        }
        lemma_others_no_repeats(d, path);
        lemma_others(d, path);
        let o = others(d, path);
        let all = others(s, path);
        assert forall|i: int, j: int|
            0 <= i < j < all.len() && (#[trigger] all[i]).path@.len() > 0 implies all[i].path@ != (
        #[trigger] all[j]).path@ by {
            assert(all[i] == o[i]);
            if j < o.len() {
                assert(all[j] == o[j]);
            } else {
                let k = choose|k: int| 0 <= k < d.len() && d[k] == o[i];
                assert(s[k] == d[k]);
                assert(all[j] == s[s.len() - 1]);
            }
        }
    }
}

/// A list in which no file is twice stays so with every new entry.
pub proof fn a_file_is_listed_once(s: Seq<Entry>, entry: Entry)
    requires
        no_repeats(s),
    ensures
        no_repeats(pushed(s, entry)),
{
    let p = entry.path@;
    lemma_others_no_repeats(s, p);
    lemma_others(s, p);
    let kept = without_file(s, p);
    let all = seq![entry] + kept;
    let r = pushed(s, entry);
    assert forall|i: int, j: int|
        0 <= i < j < r.len() && (#[trigger] r[i]).path@.len() > 0 implies r[i].path@ != (
    #[trigger] r[j]).path@ by {
        assert(r[i] == all[i] && r[j] == all[j]);
        assert(all[j] == kept[j - 1]);
        if i > 0 {
            assert(all[i] == kept[i - 1]);
        }
    }
}

/// A list that was stored whole is read whole again.
pub proof fn a_stored_list_is_read_again(s: Seq<Entry>)
    ensures
        limited(readable(limited(s).map_values(|e: Entry| Some(e)))) == limited(s),
{
    lemma_readable(limited(s));
}

proof fn lemma_readable(s: Seq<Entry>)
    ensures
        readable(s.map_values(|e: Entry| Some(e))) == s,
    decreases s.len(),
{
    let m = s.map_values(|e: Entry| Some(e));
    if s.len() > 0 {
        assert(m.drop_last() =~= s.drop_last().map_values(|e: Entry| Some(e)));
        lemma_readable(s.drop_last());
        assert(s.drop_last().push(s.last()) =~= s);
    } else {
        assert(readable(m) =~= s);
    }
}

/// A filter shows the entries of its own kind; any other shows all of them.
pub proof fn a_filter_shows_its_own_kind(s: Seq<Entry>, any: Seq<char>)
    ensures
        forall|k: Kind| #[trigger] is_shown(k, "download"@) <==> k is Download,
        forall|k: Kind| #[trigger] is_shown(k, "convert"@) <==> k is Convert,
        any != "download"@ && any != "convert"@ ==> shown_of(s, any) == s.len(),
        shown_of(s, "download"@) == s.filter(|e: Entry| e.kind is Download).len(),
        shown_of(s, "download"@) + shown_of(s, "convert"@) == s.len(),
    decreases s.len(),
{
    reveal_strlit("download");
    reveal_strlit("convert");
    assert("download"@.len() == 8 && "convert"@.len() == 7);
    reveal(Seq::filter);
    if s.len() > 0 {
        a_filter_shows_its_own_kind(s.drop_last(), any);
    }
}

/// Every entry of a stored list that can be read is read, and stands where it
/// stood.
pub proof fn every_readable_entry_is_read(
    before: Seq<Option<Entry>>,
    e: Entry,
    after: Seq<Option<Entry>>,
)
    ensures
        readable(before.push(Some(e)) + after) == readable(before).push(e) + readable(after),
        readable(before.push(None) + after) == readable(before) + readable(after),
    decreases after.len(),
{
    let a = before.push(Some(e)) + after;
    let b = before.push(None) + after;
    if after.len() == 0 {
        assert(a =~= before.push(Some(e)));
        assert(b =~= before.push(None));
        assert(a.drop_last() =~= before && b.drop_last() =~= before);
        assert(readable(after) =~= seq![]);
    } else {
        every_readable_entry_is_read(before, e, after.drop_last());
        assert(a.drop_last() =~= before.push(Some(e)) + after.drop_last());
        assert(b.drop_last() =~= before.push(None) + after.drop_last());
        assert(a.last() == after.last() && b.last() == after.last());
    }
}

/// A run comes first in the list, without what was there of its file; of the
/// rest everything stays, as far as two hundred entries reach.
pub proof fn other_files_stay(s: Seq<Entry>, entry: Entry)
    ensures
        ({
            let rest = s.filter(
                |e: Entry| entry.path@.len() == 0 || e.path@ != entry.path@,
            );
            let all = seq![entry] + rest;
            pushed(s, entry) == (if all.len() > 200 {
                all.take(200)
            } else {
                all
            })
        }),
{
    lemma_others_filter(s, entry);
}

proof fn lemma_others_filter(s: Seq<Entry>, entry: Entry)
    ensures
        without_file(s, entry.path@) == s.filter(
            |e: Entry| entry.path@.len() == 0 || e.path@ != entry.path@,
        ),
    decreases s.len(),
{
    reveal(Seq::filter);
    if s.len() > 0 {
        lemma_others_filter(s.drop_last(), entry);
    }
}

/// A stored list is read up to its two hundredth entry.
pub proof fn two_hundred_entries_are_read(s: Seq<Entry>)
    ensures
        limited(s) == (if s.len() > 200 {
            s.take(200)
        } else {
            s
        }),
{
}

/// A run is named by its file, and by its address where it has none.
pub proof fn a_run_is_named_by_its_file(n: Seq<char>, url: Seq<char>)
    ensures
        n.len() > 0 ==> job_name(Some(n), url) == n,
        n.len() == 0 ==> job_name(Some(n), url) == url,
        job_name(None, url) == url,
{
}

/// A download and a conversion have their own signs, and the list its own place
/// among the settings.
pub proof fn kinds_have_their_signs()
    ensures
        sign_of(Kind::Download) == "⬇"@,
        sign_of(Kind::Convert) == "⚙"@,
        HISTORY_KEY@ == "history"@,
{
}

} // verus!
