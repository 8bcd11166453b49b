//! Paths as text.
//!
//! How a path falls into parts depends on the platform: on Windows a backslash
//! separates too and a drive or a share may stand in front. A `PathBuf` is read
//! in one way or the other, and everything that is asked of it goes by the same
//! reading. Which one it is cannot be told from a text, so a contract over texts
//! holds for one of the two.

use crate::text::{is_ascii_letter, is_at, last_at, opt_text};
use vstd::prelude::*;

verus! {

// ---------------- what stands in front ----------------

/// The character separates the parts of a path, on Windows or elsewhere.
pub open spec fn is_sep(c: char, windows: bool) -> bool {
    c == '/' || (windows && c == '\\')
}

/// The first separator from `i` on, or the end.
pub open spec fn sep_from(p: Seq<char>, i: int, windows: bool) -> int
    decreases p.len() - i,
{
    if i < 0 || i >= p.len() || is_sep(p[i], windows) {
        i
    } else {
        sep_from(p, i + 1, windows)
    }
}

/// A drive stands in front, as in "C:".
pub open spec fn has_drive(p: Seq<char>, windows: bool) -> bool {
    windows && p.len() >= 2 && is_ascii_letter(p[0]) && p[1] == ':'
}

/// Two separators stand in front, as in "\\\\server\\share".
pub open spec fn has_share(p: Seq<char>, windows: bool) -> bool {
    windows && p.len() >= 2 && is_sep(p[0], windows) && is_sep(p[1], windows)
}

/// Two separators are followed by a server and a share, each of them named, and
/// not by the sign of a device.
pub open spec fn is_share(p: Seq<char>) -> bool {
    let s = sep_from(p, 2, true);
    &&& p.len() > 2 && !is_sep(p[2], true) && p[2] != '?' && p[2] != '.'
    &&& s + 1 < p.len() && !is_sep(p[s + 1], true)
}

/// What stands in front of a path is told by it: nothing, a root, a drive or a
/// share. Left out are the paths of Windows that begin with two separators and
/// go on otherwise.
pub open spec fn is_known(p: Seq<char>, windows: bool) -> bool {
    has_share(p, windows) ==> is_share(p)
}

/// The length of the drive, or of the server and the share, in front.
pub open spec fn prefix_len(p: Seq<char>, windows: bool) -> int {
    if has_share(p, windows) {
        sep_from(p, sep_from(p, 2, windows) + 1, windows)
    } else if has_drive(p, windows) {
        2
    } else {
        0
    }
}

/// From `n` on a path begins with a point that stands for the directory one is
/// in.
pub open spec fn begins_here(p: Seq<char>, n: int, windows: bool) -> bool {
    n < p.len() && p[n] == '.' && (n + 1 == p.len() || is_sep(p[n + 1], windows))
}

/// The length of what stands in front of the parts of a path: the prefix, and a
/// root or a point behind it.
pub open spec fn head_len(p: Seq<char>, windows: bool) -> int {
    let n = prefix_len(p, windows);
    if (n < p.len() && is_sep(p[n], windows)) || begins_here(p, n, windows) {
        n + 1
    } else {
        n
    }
}

// ---------------- the parts of a path ----------------

/// What stands behind the first `h` characters ends in something that stands
/// for nothing: a separator, or a part that is a point.
pub open spec fn ends_idly(p: Seq<char>, h: int, windows: bool) -> bool {
    let n = p.len();
    n > h && (is_sep(p[n - 1], windows) || (p[n - 1] == '.' && (n - 1 == h || is_sep(
        p[n - 2],
        windows,
    ))))
}

/// A path without what stands for nothing at its end.
pub open spec fn bare(p: Seq<char>, h: int, windows: bool) -> Seq<char>
    decreases p.len(),
{
    if p.len() > 0 && ends_idly(p, h, windows) {
        bare(p.drop_last(), h, windows)
    } else {
        p
    }
}

/// Where the last part begins: behind the last separator, and not within the
/// first `h` characters.
pub open spec fn cut_at(p: Seq<char>, h: int, windows: bool) -> int
    decreases p.len(),
{
    if p.len() == 0 || p.len() <= h {
        h
    } else if is_sep(p.last(), windows) {
        p.len() as int
    } else {
        cut_at(p.drop_last(), h, windows)
    }
}

/// A path without what stands for nothing at its end.
pub open spec fn trimmed_path(p: Seq<char>, windows: bool) -> Seq<char> {
    bare(p, head_len(p, windows), windows)
}

/// There is a part behind what stands in front.
pub open spec fn has_part(p: Seq<char>, windows: bool) -> bool {
    trimmed_path(p, windows).len() > head_len(p, windows)
}

/// What stands in front of the last part of a path.
pub open spec fn dir_in(p: Seq<char>, windows: bool) -> Seq<char> {
    let t = trimmed_path(p, windows);
    t.take(cut_at(t, head_len(p, windows), windows))
}

/// The last part of a path.
pub open spec fn part_in(p: Seq<char>, windows: bool) -> Seq<char> {
    let t = trimmed_path(p, windows);
    t.skip(cut_at(t, head_len(p, windows), windows))
}

/// The name of the file or directory that a path leads to: its last part, where
/// there is one that does not lead upwards.
pub open spec fn name_in(p: Seq<char>, windows: bool) -> Option<Seq<char>> {
    if has_part(p, windows) && part_in(p, windows) != seq!['.', '.'] {
        Some(part_in(p, windows))
    } else {
        None
    }
}

/// A path without its last part. A point that begins it counts as one, but not a
/// root, a drive or a share.
pub open spec fn parent_in(p: Seq<char>, windows: bool) -> Option<Seq<char>> {
    if has_part(p, windows) {
        Some(bare(dir_in(p, windows), head_len(p, windows), windows))
    } else if begins_here(p, prefix_len(p, windows), windows) {
        Some(p.take(prefix_len(p, windows)))
    } else {
        None
    }
}

/// A path with another behind it, after a separator where one is needed. One
/// with a drive takes the place of the first.
pub open spec fn below(base: Seq<char>, rel: Seq<char>, windows: bool) -> Seq<char> {
    if has_drive(rel, windows) {
        rel
    } else if base.len() == 0 || is_sep(base.last(), windows) || (has_drive(base, windows)
        && base.len() == 2) {
        base + rel
    } else {
        base.push(
            if windows {
                '\\'
            } else {
                '/'
            },
        ) + rel
    }
}

/// The path of another file in the same directory; behind the path, where that
/// leads to no file.
pub open spec fn beside(p: Seq<char>, name: Seq<char>, windows: bool) -> Seq<char> {
    match (name_in(p, windows), parent_in(p, windows)) {
        (Some(_), Some(d)) => below(d, name, windows),
        _ => below(p, name, windows),
    }
}

/// Where the extension of a file name begins: at its last point, unless that is
/// its first character.
pub open spec fn ext_point(name: Seq<char>) -> Option<int> {
    match last_at(name, seq!['.'], name.len() - 1) {
        Some(i) => if i > 0 {
            Some(i)
        } else {
            None
        },
        None => None,
    }
}

/// The extension of a file name, without its point.
pub open spec fn ext_of(name: Seq<char>) -> Option<Seq<char>> {
    match ext_point(name) {
        Some(i) => Some(name.skip(i + 1)),
        None => None,
    }
}

/// A file name without its extension.
pub open spec fn stem_of(name: Seq<char>) -> Seq<char> {
    match ext_point(name) {
        Some(i) => name.take(i),
        None => name,
    }
}

/// A file name with another extension; an empty one takes it away.
pub open spec fn named_with_ext(name: Seq<char>, ext: Seq<char>) -> Seq<char> {
    if ext.len() == 0 {
        stem_of(name)
    } else {
        stem_of(name).push('.') + ext
    }
}

/// The extension of the file that a path leads to, without its point.
pub open spec fn ext_in(p: Seq<char>, windows: bool) -> Option<Seq<char>> {
    match name_in(p, windows) {
        Some(n) => ext_of(n),
        None => None,
    }
}

/// The name of the file that a path leads to, without its extension.
pub open spec fn stem_in(p: Seq<char>, windows: bool) -> Option<Seq<char>> {
    match name_in(p, windows) {
        Some(n) => Some(stem_of(n)),
        None => None,
    }
}

/// A path with another extension on its file name; as it is, where it leads to
/// no file.
pub open spec fn with_ext_in(p: Seq<char>, ext: Seq<char>, windows: bool) -> Seq<char> {
    match name_in(p, windows) {
        Some(n) => dir_in(p, windows) + named_with_ext(n, ext),
        None => p,
    }
}

// ---------------- names ----------------

/// No character that separates the parts of a path on some platform.
pub open spec fn no_separator(n: Seq<char>) -> bool {
    !n.contains('/') && !n.contains('\\')
}

/// `n` is the name of one file on every platform.
pub open spec fn plain_name(n: Seq<char>) -> bool {
    &&& n.len() > 0
    &&& no_separator(n)
    &&& !has_drive(n, true)
    &&& n != seq!['.']
    &&& n != seq!['.', '.']
}

/// A name of more than two characters, none of which separates, is plain.
pub proof fn lemma_is_plain(n: Seq<char>)
    requires
        n.len() > 2,
        forall|i: int| 0 <= i < n.len() ==> #[trigger] n[i] != '/' && n[i] != '\\',
        n[1] != ':',
    ensures
        plain_name(n),
{
}

/// The plain name of a file is a path to it, with no directory in front.
pub proof fn lemma_plain_name(n: Seq<char>, windows: bool)
    requires
        plain_name(n),
    ensures
        is_known(n, windows),
        name_in(n, windows) == Some(n),
        dir_in(n, windows) == Seq::<char>::empty(),
{
    assert forall|i: int| 0 <= i < n.len() implies !is_sep(#[trigger] n[i], windows) by {
        assert(n.contains(n[i]));
    }
    if n.len() == 1 && n[0] == '.' {
        assert(n =~= seq!['.']);
    }
    lemma_behind(Seq::empty(), n, 0, windows);
    assert(Seq::<char>::empty() + n =~= n);
    assert(n.take(0) =~= Seq::<char>::empty());
}

/// A text that is no plain name although it holds no separator and no drive
/// leads to no file.
pub proof fn lemma_no_name(n: Seq<char>, windows: bool)
    requires
        n.len() == 0 || n == seq!['.'] || n == seq!['.', '.'],
    ensures
        is_known(n, windows),
        name_in(n, windows) is None,
{
    if n == seq!['.', '.'] {
        assert(n[0] == '.' && n[1] == '.' && n.len() == 2);
        lemma_cut_behind(Seq::empty(), n, 0, windows);
        assert(Seq::<char>::empty() + n =~= n);
        assert(n.skip(0) =~= n);
    } else if n == seq!['.'] {
        assert(n[0] == '.' && n.len() == 1);
    }
}

/// The stem of a name is what it begins with, and is not empty; its extension
/// is what it ends with.
pub proof fn lemma_parts_of(n: Seq<char>)
    requires
        n.len() > 0,
    ensures
        0 < stem_of(n).len() <= n.len(),
        stem_of(n) == n.take(stem_of(n).len() as int),
        ext_of(n) is Some ==> n == stem_of(n).push('.') + ext_of(n)->0,
{
    lemma_last_at(n, seq!['.'], n.len() - 1);
    assert(n.take(n.len() as int) =~= n);
    if let Some(k) = ext_point(n) {
        assert(n.subrange(k, k + 1)[0] == '.');
        assert(n =~= stem_of(n).push('.') + ext_of(n)->0);
    }
}

proof fn lemma_last_at(s: Seq<char>, c: Seq<char>, from: int)
    ensures
        match last_at(s, c, from) {
            Some(i) => 0 <= i <= from && is_at(s, c, i),
            None => true,
        },
    decreases from + 1,
{
    if from >= 0 && !is_at(s, c, from) {
        lemma_last_at(s, c, from - 1);
    }
}

proof fn lemma_last_point(n: Seq<char>, from: int)
    requires
        from < n.len(),
    ensures
        match last_at(n, seq!['.'], from) {
            Some(k) => 0 <= k <= from && n[k] == '.' && forall|j: int|
                k < j <= from ==> #[trigger] n[j] != '.',
            None => forall|j: int| 0 <= j <= from ==> #[trigger] n[j] != '.',
        },
    decreases from + 1,
{
    if from >= 0 {
        assert(n.subrange(from, from + 1)[0] == n[from]);
        if n[from] == '.' {
            assert(n.subrange(from, from + 1) =~= seq!['.']);
        } else {
            lemma_last_point(n, from - 1);
        }
    }
}

/// No point stands in the extension of a name, nor in a name that has none but
/// as its first character.
pub proof fn lemma_ext_has_no_point(n: Seq<char>)
    ensures
        ext_of(n) is Some ==> !ext_of(n)->0.contains('.'),
        ext_of(n) is None ==> forall|j: int| 1 <= j < n.len() ==> #[trigger] n[j] != '.',
{
    lemma_last_point(n, n.len() - 1);
    if let Some(e) = ext_of(n) {
        let k = ext_point(n)->0;
        assert forall|i: int| 0 <= i < e.len() implies #[trigger] e[i] != '.' by {
            assert(e[i] == n[i + k + 1]);
        }
    }
}

/// A name falls into what was put together, where no point stands in the part
/// behind the point.
pub proof fn lemma_named(stem: Seq<char>, ext: Seq<char>)
    requires
        stem.len() > 0,
        !ext.contains('.'),
    ensures
        stem_of(stem.push('.') + ext) == stem,
        ext_of(stem.push('.') + ext) == Some(ext),
{
    let n = stem.push('.') + ext;
    let k = stem.len() as int;
    lemma_last_point(n, n.len() - 1);
    assert(n[k] == '.');
    assert forall|j: int| k < j < n.len() implies #[trigger] n[j] != '.' by {
        assert(n[j] == ext[j - k - 1]);
        assert(ext.contains(ext[j - k - 1]));
    }
    assert(n.take(k) =~= stem);
    assert(n.skip(k + 1) =~= ext);
}

/// A name without a point, but as its first character, has no extension.
pub proof fn lemma_unextended(n: Seq<char>)
    requires
        forall|j: int| 1 <= j < n.len() ==> #[trigger] n[j] != '.',
    ensures
        ext_of(n) is None,
        stem_of(n) == n,
{
    lemma_last_point(n, n.len() - 1);
}

/// Texts without a separator make up a text without one.
pub proof fn lemma_no_separator(a: Seq<char>, b: Seq<char>)
    requires
        no_separator(a),
        no_separator(b),
    ensures
        no_separator(a + b),
{
    let s = a + b;
    assert forall|c: char| s.contains(c) implies a.contains(c) || b.contains(c) by {
        let i = choose|i: int| 0 <= i < s.len() && s[i] == c;
        if i < a.len() {
            assert(a[i] == c);
        } else {
            assert(b[i - a.len()] == c);
        }
    }
}

// ---------------- taking a path apart ----------------

proof fn lemma_sep_from(p: Seq<char>, i: int, windows: bool)
    requires
        0 <= i <= p.len(),
    ensures
        i <= sep_from(p, i, windows) <= p.len(),
        sep_from(p, i, windows) < p.len() ==> is_sep(p[sep_from(p, i, windows)], windows),
    decreases p.len() - i,
{
    if i < p.len() && !is_sep(p[i], windows) {
        lemma_sep_from(p, i + 1, windows);
    }
}

proof fn lemma_sep_from_same(p: Seq<char>, q: Seq<char>, i: int, windows: bool)
    requires
        0 <= i <= sep_from(p, i, windows) < p.len(),
        sep_from(p, i, windows) < q.len(),
        forall|j: int| 0 <= j <= sep_from(p, i, windows) ==> #[trigger] q[j] == p[j],
    ensures
        sep_from(q, i, windows) == sep_from(p, i, windows),
    decreases p.len() - i,
{
    lemma_sep_from(p, i, windows);
    assert(q[i] == p[i]);
    if !is_sep(p[i], windows) {
        lemma_sep_from(p, i + 1, windows);
        lemma_sep_from_same(p, q, i + 1, windows);
    }
}

/// A path that begins as another does has the same in front.
proof fn lemma_head_same(p: Seq<char>, q: Seq<char>, windows: bool)
    requires
        is_known(p, windows),
        head_len(p, windows) < p.len(),
        head_len(p, windows) <= q.len(),
        forall|i: int| 0 <= i < head_len(p, windows) ==> #[trigger] q[i] == p[i],
        prefix_len(p, windows) == 0 ==> !has_drive(q, windows) && !has_share(q, windows),
        ({
            let h = head_len(p, windows);
            let n = prefix_len(p, windows);
            &&& h == n && h < q.len() ==> !is_sep(q[h], windows) && !begins_here(q, h, windows)
            &&& begins_here(p, n, windows) && h < q.len() ==> is_sep(q[h], windows)
        }),
    ensures
        is_known(q, windows),
        prefix_len(q, windows) == prefix_len(p, windows),
        head_len(q, windows) == head_len(p, windows),
        0 <= prefix_len(p, windows) <= head_len(p, windows),
{
    let n = prefix_len(p, windows);
    if has_share(p, windows) {
        let s = sep_from(p, 2, windows);
        lemma_sep_from(p, 2, windows);
        lemma_sep_from(p, s + 1, windows);
        assert(q[0] == p[0] && q[1] == p[1] && q[2] == p[2]);
        assert(q[s + 1] == p[s + 1]);
        lemma_sep_from_same(p, q, 2, windows);
        lemma_sep_from_same(p, q, s + 1, windows);
        assert(q[n] == p[n]);
    } else if has_drive(p, windows) {
        assert(q[0] == p[0] && q[1] == p[1]);
        if head_len(p, windows) == 3 {
            assert(q[2] == p[2]);
        }
    } else if head_len(p, windows) == 1 {
        assert(q[0] == p[0]);
    }
}

proof fn lemma_head(p: Seq<char>, windows: bool)
    requires
        is_known(p, windows),
    ensures
        0 <= prefix_len(p, windows) <= head_len(p, windows) <= p.len(),
        has_share(p, windows) ==> prefix_len(p, windows) > 2,
        has_share(p, windows) && head_len(p, windows) < p.len() ==> head_len(p, windows)
            == prefix_len(p, windows) + 1 && is_sep(p[prefix_len(p, windows)], windows),
{
    if has_share(p, windows) {
        let s = sep_from(p, 2, windows);
        lemma_sep_from(p, 2, windows);
        lemma_sep_from(p, s + 1, windows);
    }
}

proof fn lemma_bare(p: Seq<char>, h: int, windows: bool)
    requires
        0 <= h <= p.len(),
    ensures
        h <= bare(p, h, windows).len() <= p.len(),
        bare(p, h, windows) == p.take(bare(p, h, windows).len() as int),
        !ends_idly(bare(p, h, windows), h, windows),
        bare(bare(p, h, windows), h, windows) == bare(p, h, windows),
    decreases p.len(),
{
    if p.len() > 0 && ends_idly(p, h, windows) {
        lemma_bare(p.drop_last(), h, windows);
        let t = bare(p, h, windows);
        assert(p.drop_last().take(t.len() as int) =~= p.take(t.len() as int));
    } else {
        assert(p.take(p.len() as int) =~= p);
    }
}

proof fn lemma_cut(p: Seq<char>, h: int, windows: bool)
    requires
        0 <= h <= p.len(),
    ensures
        h <= cut_at(p, h, windows) <= p.len(),
        cut_at(p, h, windows) == h || is_sep(p[cut_at(p, h, windows) - 1], windows),
        forall|i: int| cut_at(p, h, windows) <= i < p.len() ==> !is_sep(#[trigger] p[i], windows),
    decreases p.len(),
{
    if p.len() > h && !is_sep(p.last(), windows) {
        let q = p.drop_last();
        lemma_cut(q, h, windows);
        assert forall|i: int| cut_at(p, h, windows) <= i < p.len() implies !is_sep(
            #[trigger] p[i],
            windows,
        ) by {
            if i < q.len() {
                assert(q[i] == p[i]);
            }
        }
    }
}

proof fn lemma_cut_behind(d: Seq<char>, name: Seq<char>, h: int, windows: bool)
    requires
        0 <= h <= d.len(),
        d.len() == h || is_sep(d.last(), windows),
        forall|i: int| 0 <= i < name.len() ==> !is_sep(#[trigger] name[i], windows),
    ensures
        cut_at(d + name, h, windows) == d.len(),
    decreases name.len(),
{
    let p = d + name;
    if name.len() == 0 {
        assert(p =~= d);
    } else {
        let less = name.drop_last();
        assert(p.drop_last() =~= d + less);
        assert(p.last() == name.last());
        lemma_cut_behind(d, less, h, windows);
    }
}

/// A name behind a directory is the last part of the path they make.
proof fn lemma_behind(d: Seq<char>, name: Seq<char>, h: int, windows: bool)
    requires
        0 <= h <= d.len(),
        d.len() == h || is_sep(d.last(), windows),
        name.len() > 0,
        name != seq!['.'],
        forall|i: int| 0 <= i < name.len() ==> !is_sep(#[trigger] name[i], windows),
    ensures
        bare(d + name, h, windows) == d + name,
        cut_at(d + name, h, windows) == d.len(),
        (d + name).take(d.len() as int) == d,
        (d + name).skip(d.len() as int) == name,
{
    let p = d + name;
    lemma_cut_behind(d, name, h, windows);
    assert(p.last() == name.last());
    if name.len() == 1 {
        if name[0] == '.' {
            assert(name =~= seq!['.']);
        }
    } else {
        assert(p[p.len() - 2] == name[name.len() - 2]);
    }
    assert(!ends_idly(p, h, windows));
    assert(p.take(d.len() as int) =~= d);
    assert(p.skip(d.len() as int) =~= name);
}

/// The last part of a path is neither empty nor a point, and holds no separator.
pub proof fn lemma_name(p: Seq<char>, windows: bool)
    requires
        is_known(p, windows),
        has_part(p, windows),
    ensures
        ({
            let n = part_in(p, windows);
            &&& n.len() > 0
            &&& n != seq!['.']
            &&& forall|i: int| 0 <= i < n.len() ==> !is_sep(#[trigger] n[i], windows)
        }),
{
    let h = head_len(p, windows);
    let t = trimmed_path(p, windows);
    lemma_head(p, windows);
    lemma_bare(p, h, windows);
    lemma_cut(t, h, windows);
    let c = cut_at(t, h, windows);
    let n = part_in(p, windows);
    assert forall|i: int| 0 <= i < n.len() implies !is_sep(#[trigger] n[i], windows) by {
        assert(n[i] == t[c + i]);
    }
    if n == seq!['.'] {
        assert(n[0] == '.' && n.len() == 1);
        assert(t[t.len() - 1] == n[0]);
    }
}

/// A name in place of the last part of a path is the last part of what results,
/// and the same stands in front of it.
pub proof fn lemma_renamed_in_place(p: Seq<char>, name: Seq<char>, windows: bool)
    requires
        is_known(p, windows),
        has_part(p, windows),
        name.len() > 0,
        name != seq!['.'],
        forall|i: int| 0 <= i < name.len() ==> !is_sep(#[trigger] name[i], windows),
        dir_in(p, windows).len() == 0 ==> !has_drive(name, windows),
    ensures
        is_known(dir_in(p, windows) + name, windows),
        has_part(dir_in(p, windows) + name, windows),
        part_in(dir_in(p, windows) + name, windows) == name,
        dir_in(dir_in(p, windows) + name, windows) == dir_in(p, windows),
        head_len(dir_in(p, windows) + name, windows) == head_len(p, windows),
{
    let h = head_len(p, windows);
    let t = trimmed_path(p, windows);
    let d = dir_in(p, windows);
    let q = d + name;
    lemma_head(p, windows);
    lemma_bare(p, h, windows);
    lemma_cut(t, h, windows);
    let c = d.len() as int;
    assert forall|i: int| 0 <= i < c implies #[trigger] q[i] == p[i] by {
        assert(q[i] == t[i]);
    }
    if c > h {
        assert(d.last() == t[c - 1]);
    }
    assert(q[c] == name[0]);
    assert(name.len() > 1 ==> q[c + 1] == name[1]);
    assert(t.len() > h && t[h] == p[h]);
    if name.len() == 1 && name[0] == '.' {
        assert(name =~= seq!['.']);
    }
    lemma_front_is_closed(p, q, c, windows);
    lemma_head_same(p, q, windows);
    lemma_behind(d, name, h, windows);
}

/// A path with nothing in front of its last part has no drive.
pub proof fn lemma_undriven(p: Seq<char>, windows: bool)
    requires
        is_known(p, windows),
        has_part(p, windows),
        dir_in(p, windows).len() == 0,
    ensures
        !has_drive(part_in(p, windows), windows),
{
    let h = head_len(p, windows);
    let t = trimmed_path(p, windows);
    lemma_head(p, windows);
    lemma_bare(p, h, windows);
    lemma_cut(t, h, windows);
    let n = part_in(p, windows);
    assert(n =~= t);
    assert(n.len() >= 2 ==> n[0] == p[0] && n[1] == p[1]);
}

/// What `lemma_head_same` asks of a path that goes on with a name behind the
/// directory of another.
proof fn lemma_front_is_closed(p: Seq<char>, q: Seq<char>, c: int, windows: bool)
    requires
        is_known(p, windows),
        head_len(p, windows) < p.len(),
        head_len(p, windows) <= c < q.len(),
        c <= p.len(),
        forall|i: int| 0 <= i < c ==> #[trigger] q[i] == p[i],
        c == head_len(p, windows) || is_sep(q[c - 1], windows),
        !is_sep(q[c], windows),
        q.len() > c + 1 ==> !is_sep(q[c + 1], windows),
        q.len() == c + 1 ==> q[c] != '.',
        c == 0 ==> !has_drive(q, windows),
        begins_here(p, prefix_len(p, windows), windows) ==> c > head_len(p, windows),
    ensures
        ({
            let h = head_len(p, windows);
            let n = prefix_len(p, windows);
            &&& n == 0 ==> !has_drive(q, windows) && !has_share(q, windows)
            &&& h == n && h < q.len() ==> !is_sep(q[h], windows) && !begins_here(q, h, windows)
            &&& begins_here(p, n, windows) && h < q.len() ==> is_sep(q[h], windows)
        }),
{
    let h = head_len(p, windows);
    let n = prefix_len(p, windows);
    lemma_head(p, windows);
    if n == 0 {
        if c >= 2 {
            assert(q[0] == p[0] && q[1] == p[1]);
        } else if c == 1 {
            assert(q[0] == p[0]);
        }
    }
    if c > h {
        assert(q[h] == p[h]);
        if c > h + 1 {
            assert(q[h + 1] == p[h + 1]);
        }
    }
}

/// Another file in the directory of a file has the name it was given, and is in
/// that directory.
pub proof fn lemma_beside(p: Seq<char>, name: Seq<char>, windows: bool)
    requires
        is_known(p, windows),
        name_in(p, windows) is Some,
        name.len() > 0,
        name != seq!['.'],
        name != seq!['.', '.'],
        forall|i: int| 0 <= i < name.len() ==> !is_sep(#[trigger] name[i], windows),
        !has_drive(name, windows),
    ensures
        is_known(beside(p, name, windows), windows),
        name_in(beside(p, name, windows), windows) == Some(name),
        parent_in(beside(p, name, windows), windows) == parent_in(p, windows),
{
    let h = head_len(p, windows);
    let t = trimmed_path(p, windows);
    let d = dir_in(p, windows);
    let up = bare(d, h, windows);
    let r = beside(p, name, windows);
    let f = r.take(r.len() - name.len());
    lemma_head(p, windows);
    lemma_bare(p, h, windows);
    lemma_cut(t, h, windows);
    lemma_bare(d, h, windows);
    let u = up.len() as int;
    assert forall|i: int| 0 <= i < u implies #[trigger] up[i] == p[i] by {
        assert(up[i] == d[i]);
        assert(d[i] == t[i]);
    }
    assert(t[h] == p[h]);
    if has_drive(up, windows) {
        assert(p[0] == up[0] && p[1] == up[1]);
    }
    assert(r =~= f + name);
    if u > h {
        assert(!is_sep(up[u - 1], windows));
        assert(f =~= up.push(f.last()));
        assert(f.drop_last() =~= up);
    } else if f.len() > h {
        assert(f =~= up.push(f.last()));
        assert(f.drop_last() =~= up);
    } else {
        assert(f =~= up);
    }
    assert forall|i: int| 0 <= i < u implies #[trigger] r[i] == p[i] by {
        assert(r[i] == up[i]);
    }
    assert(r[f.len() as int] == name[0]);
    assert(name.len() > 1 ==> r[f.len() as int + 1] == name[1]);
    lemma_beside_is_closed(p, up, r, name, windows);
    lemma_head_same(p, r, windows);
    lemma_behind(f, name, h, windows);
    assert(bare(f, h, windows) == up);
}

proof fn lemma_beside_is_closed(
    p: Seq<char>,
    up: Seq<char>,
    r: Seq<char>,
    name: Seq<char>,
    windows: bool,
)
    requires
        is_known(p, windows),
        head_len(p, windows) < p.len(),
        head_len(p, windows) <= up.len() < p.len(),
        forall|i: int| 0 <= i < up.len() ==> #[trigger] up[i] == p[i],
        !ends_idly(up, head_len(p, windows), windows),
        r == below(up, name, windows),
        name.len() > 0,
        name != seq!['.'],
        forall|i: int| 0 <= i < name.len() ==> !is_sep(#[trigger] name[i], windows),
        !has_drive(name, windows),
    ensures
        ({
            let h = head_len(p, windows);
            let n = prefix_len(p, windows);
            &&& forall|i: int| 0 <= i < up.len() ==> #[trigger] r[i] == p[i]
            &&& r.len() >= up.len() + name.len()
            &&& up.len() == h && !begins_here(p, n, windows) ==> r == up + name
            &&& up.len() > h || begins_here(p, n, windows) ==> r.len() == up.len() + 1 + name.len()
                && is_sep(r[up.len() as int], windows)
            &&& n == 0 ==> !has_drive(r, windows) && !has_share(r, windows)
            &&& h == n && h < r.len() ==> !is_sep(r[h], windows) && !begins_here(r, h, windows)
            &&& begins_here(p, n, windows) && h < r.len() ==> is_sep(r[h], windows)
        }),
{
    let h = head_len(p, windows);
    let n = prefix_len(p, windows);
    let u = up.len() as int;
    lemma_head(p, windows);
    if u > 0 {
        assert(up[0] == p[0]);
        assert(up[u - 1] == p[u - 1]);
    }
    if u > 1 {
        assert(up[1] == p[1]);
    }
    assert forall|i: int| 0 <= i < u implies #[trigger] r[i] == p[i] by {
        assert(r[i] == up[i]);
    }
    if name.len() == 1 && name[0] == '.' {
        assert(name =~= seq!['.']);
    }
    if r == up + name {
        assert(r[u] == name[0]);
        assert(name.len() > 1 ==> r[u + 1] == name[1]);
    } else {
        assert(r[u + 1] == name[0]);
    }
    if u > h {
        assert(r[h] == p[h]);
        assert(up[h] == p[h]);
        if u > h + 1 {
            assert(r[h + 1] == p[h + 1]);
        }
    }
}

/// `part` stands in `whole` in one piece.
pub open spec fn is_part(part: Seq<char>, whole: Seq<char>) -> bool {
    exists|i: int| is_at(whole, part, i)
}

// ---------------- std::path ----------------

/// A path of the standard library.
#[verifier::external_type_specification]
#[verifier::external_body]
pub struct ExPathBuf(std::path::PathBuf);

/// What a path holds: its text, and how it is read.
pub struct Route {
    pub text: Seq<char>,
    /// Backslashes separate too, and a drive or a share may stand in front.
    pub windows: bool,
}

/// What a path of the standard library holds.
pub uninterp spec fn route_of(p: std::path::PathBuf) -> Route;

/// What `Path::file_name` gives for a path that begins otherwise than is known.
pub uninterp spec fn odd_file_name(p: Seq<char>, windows: bool) -> Option<Seq<char>>;

/// What `Path::file_stem` gives for a path that begins otherwise than is known.
pub uninterp spec fn odd_stem(p: Seq<char>, windows: bool) -> Option<Seq<char>>;

/// What `Path::extension` gives for a path that begins otherwise than is known.
pub uninterp spec fn odd_extension(p: Seq<char>, windows: bool) -> Option<Seq<char>>;

/// What `Path::parent` gives for a path that begins otherwise than is known.
pub uninterp spec fn odd_parent(p: Seq<char>, windows: bool) -> Option<Seq<char>>;

/// What `Path::with_file_name` gives for a path that begins otherwise than is
/// known, or for a name that begins with a separator or is empty.
pub uninterp spec fn odd_renamed(p: Seq<char>, name: Seq<char>, windows: bool) -> Seq<char>;

/// What `PathBuf::set_extension` makes of a path that begins otherwise than is
/// known.
pub uninterp spec fn odd_extended(p: Seq<char>, ext: Seq<char>, windows: bool) -> Seq<char>;

/// What `Path::join` puts behind a path that begins with the Windows prefix
/// "\\\\?\\": what stands in it is put in order as well.
pub uninterp spec fn odd_joined(base: Seq<char>, rel: Seq<char>, windows: bool) -> Seq<char>;

/// The name of the file that a path leads to, where there is one.
pub open spec fn file_name_at(p: Seq<char>, windows: bool) -> Option<Seq<char>> {
    if is_known(p, windows) {
        name_in(p, windows)
    } else {
        odd_file_name(p, windows)
    }
}

/// The name of the file that a path leads to, without its extension.
pub open spec fn stem_at(p: Seq<char>, windows: bool) -> Option<Seq<char>> {
    if is_known(p, windows) {
        stem_in(p, windows)
    } else {
        odd_stem(p, windows)
    }
}

/// The extension of the file that a path leads to.
pub open spec fn ext_at(p: Seq<char>, windows: bool) -> Option<Seq<char>> {
    if is_known(p, windows) {
        ext_in(p, windows)
    } else {
        odd_extension(p, windows)
    }
}

/// A path without its last part, where it has one.
pub open spec fn parent_at(p: Seq<char>, windows: bool) -> Option<Seq<char>> {
    if is_known(p, windows) {
        parent_in(p, windows)
    } else {
        odd_parent(p, windows)
    }
}

/// A name that begins with no separator.
pub open spec fn is_relative(name: Seq<char>, windows: bool) -> bool {
    name.len() > 0 && !is_sep(name[0], windows)
}

/// The path of another file in the same directory.
pub open spec fn renamed_at(p: Seq<char>, name: Seq<char>, windows: bool) -> Seq<char> {
    if is_known(p, windows) && is_relative(name, windows) {
        beside(p, name, windows)
    } else {
        odd_renamed(p, name, windows)
    }
}

/// A path with another extension on its file name.
pub open spec fn extended_at(p: Seq<char>, ext: Seq<char>, windows: bool) -> Seq<char> {
    if is_known(p, windows) {
        with_ext_in(p, ext, windows)
    } else {
        odd_extended(p, ext, windows)
    }
}

/// The path begins with the Windows prefix for paths that are taken literally.
pub open spec fn is_literal(p: Seq<char>, windows: bool) -> bool {
    windows && "\\\\?\\"@.is_prefix_of(p)
}

/// A path with another behind it.
pub open spec fn joined_at(base: Seq<char>, rel: Seq<char>, windows: bool) -> Seq<char> {
    if is_literal(base, windows) {
        odd_joined(base, rel, windows)
    } else {
        below(base, rel, windows)
    }
}

/// Calls `PathBuf::from`, which holds the text as it is. How it is read is up
/// to the platform.
#[verifier::external_body]
pub(crate) fn path_of(text: &str) -> (r: std::path::PathBuf)
    ensures
        route_of(r).text == text@,
{
    std::path::PathBuf::from(text)
}

/// Calls `Path::to_string_lossy`, which gives the text of a path.
#[verifier::external_body]
pub(crate) fn path_text(p: &std::path::PathBuf) -> (r: String)
    ensures
        r@ == route_of(*p).text,
{
    p.to_string_lossy().to_string()
}

/// Calls `Path::file_name`: the last part of the path, unless it leads upwards
/// or there is none. A path of Windows that begins with two separators and names
/// no share has a name for what is found in it; that stands in the path.
#[verifier::external_body]
pub(crate) fn path_file_name(p: &std::path::PathBuf) -> (r: Option<String>)
    ensures
        is_known(route_of(*p).text, route_of(*p).windows) ==> opt_text(r) == name_in(
            route_of(*p).text,
            route_of(*p).windows,
        ),
        !is_known(route_of(*p).text, route_of(*p).windows) ==> opt_text(r) == odd_file_name(
            route_of(*p).text,
            route_of(*p).windows,
        ),
        r is Some ==> is_part(r->0@, route_of(*p).text),
{
    p.file_name().map(|n| n.to_string_lossy().to_string())
}

/// Calls `Path::file_stem`: the file name without its extension.
#[verifier::external_body]
pub(crate) fn path_file_stem(p: &std::path::PathBuf) -> (r: Option<String>)
    ensures
        is_known(route_of(*p).text, route_of(*p).windows) ==> opt_text(r) == stem_in(
            route_of(*p).text,
            route_of(*p).windows,
        ),
        !is_known(route_of(*p).text, route_of(*p).windows) ==> opt_text(r) == odd_stem(
            route_of(*p).text,
            route_of(*p).windows,
        ),
        r is Some ==> is_part(r->0@, route_of(*p).text),
{
    p.file_stem().map(|n| n.to_string_lossy().to_string())
}

/// Calls `Path::extension`: what stands behind the last point of the file name,
/// if that point is not its first character.
#[verifier::external_body]
pub(crate) fn path_extension(p: &std::path::PathBuf) -> (r: Option<String>)
    ensures
        is_known(route_of(*p).text, route_of(*p).windows) ==> opt_text(r) == ext_in(
            route_of(*p).text,
            route_of(*p).windows,
        ),
        !is_known(route_of(*p).text, route_of(*p).windows) ==> opt_text(r) == odd_extension(
            route_of(*p).text,
            route_of(*p).windows,
        ),
        r is Some ==> is_part(r->0@, route_of(*p).text),
{
    p.extension().map(|n| n.to_string_lossy().to_string())
}

/// Calls `Path::parent`: the path without its last part, where it has one.
#[verifier::external_body]
pub(crate) fn path_parent(p: &std::path::PathBuf) -> (r: Option<String>)
    ensures
        is_known(route_of(*p).text, route_of(*p).windows) ==> opt_text(r) == parent_in(
            route_of(*p).text,
            route_of(*p).windows,
        ),
        !is_known(route_of(*p).text, route_of(*p).windows) ==> opt_text(r) == odd_parent(
            route_of(*p).text,
            route_of(*p).windows,
        ),
        r is Some ==> is_part(r->0@, route_of(*p).text),
{
    p.parent().map(|n| n.to_string_lossy().to_string())
}

/// Calls `Path::with_file_name`: the file name is taken away, where there is
/// one, and the new one put behind what is left. The path is read as before.
#[verifier::external_body]
pub(crate) fn path_with_file_name(p: &std::path::PathBuf, name: &str) -> (r: std::path::PathBuf)
    ensures
        route_of(r).windows == route_of(*p).windows,
        is_known(route_of(*p).text, route_of(*p).windows) && is_relative(
            name@,
            route_of(*p).windows,
        ) ==> route_of(r).text == beside(route_of(*p).text, name@, route_of(*p).windows),
        !(is_known(route_of(*p).text, route_of(*p).windows) && is_relative(
            name@,
            route_of(*p).windows,
        )) ==> route_of(r).text == odd_renamed(route_of(*p).text, name@, route_of(*p).windows),
{
    p.with_file_name(name)
}

/// Calls `PathBuf::set_extension` on a copy of the path: what stands behind the
/// stem of the file name gives way to the new extension. The path is read as
/// before.
#[verifier::external_body]
pub(crate) fn path_with_extension(p: &std::path::PathBuf, ext: &str) -> (r: std::path::PathBuf)
    requires
        no_separator(ext@),
    ensures
        route_of(r).windows == route_of(*p).windows,
        is_known(route_of(*p).text, route_of(*p).windows) ==> route_of(r).text == with_ext_in(
            route_of(*p).text,
            ext@,
            route_of(*p).windows,
        ),
        !is_known(route_of(*p).text, route_of(*p).windows) ==> route_of(r).text == odd_extended(
            route_of(*p).text,
            ext@,
            route_of(*p).windows,
        ),
{
    let mut r = p.clone();
    r.set_extension(ext);
    r
}

/// `r` is `base` with `rel` behind it, as `Path::join` puts it there.
pub open spec fn joins_in(
    r: Seq<char>,
    base: Seq<char>,
    rel: Seq<char>,
    windows: bool,
) -> bool {
    r == joined_at(base, rel, windows)
}

/// The same, however the path is read.
pub open spec fn joins(r: Seq<char>, base: Seq<char>, rel: Seq<char>) -> bool {
    exists|windows: bool| joins_in(r, base, rel, windows)
}

/// Calls `Path::join` with a plain file name, which goes behind the path, after
/// a separator where one is needed. The path is read as before.
#[verifier::external_body]
pub(crate) fn path_join(p: &std::path::PathBuf, name: &str) -> (r: std::path::PathBuf)
    requires
        plain_name(name@),
    ensures
        route_of(r).windows == route_of(*p).windows,
        !is_literal(route_of(*p).text, route_of(*p).windows) ==> route_of(r).text == below(
            route_of(*p).text,
            name@,
            route_of(*p).windows,
        ),
        is_literal(route_of(*p).text, route_of(*p).windows) ==> route_of(r).text == odd_joined(
            route_of(*p).text,
            name@,
            route_of(*p).windows,
        ) && name@.is_suffix_of(route_of(r).text),
{
    p.join(name)
}

/// A path with a plain name behind it, as text.
pub(crate) fn path_below(base: &str, name: &str) -> (r: String)
    requires
        plain_name(name@),
    ensures
        joins(r@, base@, name@),
{
    let p = path_join(&path_of(base), name);
    let r = path_text(&p);
    assert(joins_in(r@, base@, name@, route_of(p).windows));
    r
}

} // verus!
