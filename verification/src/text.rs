//! Text as a sequence of characters: trimming, searching, splitting, joining.
//!
//! The mathematical side of every function here is a spec function over
//! `Seq<char>`; the executable side works on `str` and `String`.

use vstd::prelude::*;

verus! {

// ---------------- characters ----------------

/// The characters with the Unicode `White_Space` property.
pub open spec fn is_space(c: char) -> bool {
    ||| '\u{9}' <= c <= '\u{d}'
    ||| c == ' '
    ||| c == '\u{85}'
    ||| c == '\u{a0}'
    ||| c == '\u{1680}'
    ||| '\u{2000}' <= c <= '\u{200a}'
    ||| c == '\u{2028}'
    ||| c == '\u{2029}'
    ||| c == '\u{202f}'
    ||| c == '\u{205f}'
    ||| c == '\u{3000}'
}

/// Whether `c` is white space.
pub fn is_space_char(c: char) -> (r: bool)
    ensures
        r == is_space(c),
{
    ('\u{9}' <= c && c <= '\u{d}') || c == ' ' || c == '\u{85}' || c == '\u{a0}' || c == '\u{1680}'
        || ('\u{2000}' <= c && c <= '\u{200a}') || c == '\u{2028}' || c == '\u{2029}' || c
        == '\u{202f}' || c == '\u{205f}' || c == '\u{3000}'
}

/// The predicate "is white space" as a value.
pub open spec fn spaces() -> spec_fn(char) -> bool {
    |c: char| is_space(c)
}

/// The predicate "is one of `set`" as a value.
pub open spec fn one_of(set: Seq<char>) -> spec_fn(char) -> bool {
    |c: char| set.contains(c)
}

pub open spec fn is_digit(c: char) -> bool {
    '0' <= c <= '9'
}

pub fn is_digit_char(c: char) -> (r: bool)
    ensures
        r == is_digit(c),
{
    '0' <= c && c <= '9'
}

pub open spec fn is_ascii_letter(c: char) -> bool {
    ('a' <= c <= 'z') || ('A' <= c <= 'Z')
}

pub fn is_ascii_letter_char(c: char) -> (r: bool)
    ensures
        r == is_ascii_letter(c),
{
    ('a' <= c && c <= 'z') || ('A' <= c && c <= 'Z')
}

/// Whether `set` holds `c`.
pub fn char_in(set: &[char], c: char) -> (r: bool)
    ensures
        r == set@.contains(c),
{
    for i in 0..set.len()
        invariant
            forall|j: int| 0 <= j < i ==> set@[j] != c,
    {
        if set[i] == c {
            return true;
        }
    }
    false
}

// ---------------- building and comparing ----------------

/// `String::push` appends one character at the end.
pub assume_specification[ String::push ](s: &mut String, ch: char)
    ensures
        final(s)@ == old(s)@.push(ch),
;

/// The characters of `s`, one by one.
pub fn to_chars(s: &str) -> (r: Vec<char>)
    ensures
        r@ == s@,
{
    let mut out: Vec<char> = Vec::new();
    for c in it: s.chars()
        invariant
            out@ == s@.take(it.index() as int),
            it.seq() == s@,
    {
        out.push(c);
    }
    out
}

/// The text made of the characters `v[lo..hi]`.
pub fn from_chars(v: &Vec<char>, lo: usize, hi: usize) -> (r: String)
    requires
        lo <= hi <= v@.len(),
    ensures
        r@ == v@.subrange(lo as int, hi as int),
{
    let mut out = String::new();
    for i in lo..hi
        invariant
            lo <= i <= hi <= v@.len(),
            out@ == v@.subrange(lo as int, i as int),
    {
        out.push(v[i]);
    }
    out
}

/// Whether two texts are the same.
pub fn same(a: &str, b: &str) -> (r: bool)
    ensures
        r == (a@ == b@),
{
    broadcast use vstd::utf8::encode_utf8_decode_utf8;

    let x = a.as_bytes();
    let y = b.as_bytes();
    if x.len() != y.len() {
        return false;
    }
    for i in 0..x.len()
        invariant
            x@.len() == y@.len(),
            x@ == vstd::utf8::encode_utf8(a@),
            y@ == vstd::utf8::encode_utf8(b@),
            forall|j: int| 0 <= j < i ==> x@[j] == y@[j],
    {
        if x[i] != y[i] {
            return false;
        }
    }
    assert(x@ =~= y@);
    assert(vstd::utf8::decode_utf8(vstd::utf8::encode_utf8(a@)) == a@);
    assert(vstd::utf8::decode_utf8(vstd::utf8::encode_utf8(b@)) == b@);
    true
}

/// Whether `list` holds a text equal to `s`.
pub fn str_in(list: &[&str], s: &str) -> (r: bool)
    ensures
        r == (exists|i: int| 0 <= i < list@.len() && #[trigger] list@[i]@ == s@),
{
    for i in 0..list.len()
        invariant
            forall|j: int| 0 <= j < i ==> #[trigger] list@[j]@ != s@,
    {
        if same(list[i], s) {
            return true;
        }
    }
    false
}

// ---------------- lowercase ----------------

/// What `str::to_lowercase` gives for a text, behind what it gives for the ASCII
/// characters that the text begins with.
pub uninterp spec fn lowered_behind(s: Seq<char>) -> Seq<char>;

/// The ASCII lowercase counterpart of one character.
pub open spec fn ascii_lower(c: char) -> char {
    if 'A' <= c <= 'Z' {
        (c as u32 + 32) as char
    } else {
        c
    }
}

/// Every character replaced by its ASCII lowercase counterpart.
pub open spec fn ascii_lowered(s: Seq<char>) -> Seq<char> {
    s.map_values(|c: char| ascii_lower(c))
}

/// How many ASCII characters a text begins with.
pub open spec fn ascii_len(s: Seq<char>) -> int
    decreases s.len(),
{
    if s.len() == 0 || s[0] as u32 >= 128 {
        0
    } else {
        1 + ascii_len(s.skip(1))
    }
}

pub proof fn lemma_ascii_len(s: Seq<char>)
    ensures
        0 <= ascii_len(s) <= s.len(),
    decreases s.len(),
{
    if s.len() > 0 && (s[0] as u32) < 128 {
        lemma_ascii_len(s.skip(1));
    }
}

/// A text in lowercase: letter by letter as long as it is ASCII, by the Unicode
/// tables from there on.
pub open spec fn lowered(s: Seq<char>) -> Seq<char> {
    if vstd::utf8::is_ascii_chars(s) {
        ascii_lowered(s)
    } else {
        ascii_lowered(s.take(ascii_len(s))) + lowered_behind(s)
    }
}

/// Calls `str::to_lowercase`. The result is a function of the text alone. Each
/// ASCII character becomes its counterpart, whatever follows it, so a text of
/// such characters is lowered one by one. What other scripts map to is left to
/// the Unicode tables.
#[verifier::external_body]
pub(crate) fn to_lowercase(s: &str) -> (r: String)
    ensures
        vstd::utf8::is_ascii_chars(s@) ==> r@ == ascii_lowered(s@),
        !vstd::utf8::is_ascii_chars(s@) ==> r@ == ascii_lowered(s@.take(ascii_len(s@)))
            + lowered_behind(s@),
{
    s.to_lowercase()
}

// ---------------- trimming ----------------

/// `s` without its longest prefix of characters that `drop` accepts.
pub open spec fn trimmed_start(s: Seq<char>, drop: spec_fn(char) -> bool) -> Seq<char>
    decreases s.len(),
{
    if s.len() > 0 && drop(s[0]) {
        trimmed_start(s.skip(1), drop)
    } else {
        s
    }
}

/// `s` without its longest suffix of characters that `drop` accepts.
pub open spec fn trimmed_end(s: Seq<char>, drop: spec_fn(char) -> bool) -> Seq<char>
    decreases s.len(),
{
    if s.len() > 0 && drop(s.last()) {
        trimmed_end(s.drop_last(), drop)
    } else {
        s
    }
}

/// `s` without white space at either end.
pub open spec fn trimmed(s: Seq<char>) -> Seq<char> {
    trimmed_end(trimmed_start(s, spaces()), spaces())
}

/// What is left after trimming at the front is a suffix that `drop` stops at.
pub proof fn lemma_trimmed_start(s: Seq<char>, drop: spec_fn(char) -> bool)
    ensures
        trimmed_start(s, drop).len() <= s.len(),
        trimmed_start(s, drop) == s.skip(s.len() - trimmed_start(s, drop).len()),
        trimmed_start(s, drop).len() > 0 ==> !drop(trimmed_start(s, drop)[0]),
        forall|i: int|
            0 <= i < s.len() - trimmed_start(s, drop).len() ==> #[trigger] drop(s[i]),
    decreases s.len(),
{
    if s.len() > 0 && drop(s[0]) {
        lemma_trimmed_start(s.skip(1), drop);
        let t = trimmed_start(s.skip(1), drop);
        assert(s.skip(1).skip(s.skip(1).len() - t.len()) =~= s.skip(s.len() - t.len()));
        assert forall|i: int| 0 <= i < s.len() - t.len() implies #[trigger] drop(s[i]) by {
            if i > 0 {
                assert(s[i] == s.skip(1)[i - 1]);
            }
        }
    } else {
        assert(s.skip(0) =~= s);
    }
}

/// What is left after trimming at the back is a prefix that `drop` stops at.
pub proof fn lemma_trimmed_end(s: Seq<char>, drop: spec_fn(char) -> bool)
    ensures
        trimmed_end(s, drop).len() <= s.len(),
        trimmed_end(s, drop) == s.take(trimmed_end(s, drop).len() as int),
        trimmed_end(s, drop).len() > 0 ==> !drop(trimmed_end(s, drop).last()),
    decreases s.len(),
{
    if s.len() > 0 && drop(s.last()) {
        lemma_trimmed_end(s.drop_last(), drop);
        let t = trimmed_end(s.drop_last(), drop);
        assert(s.drop_last().take(t.len() as int) =~= s.take(t.len() as int));
    } else {
        assert(s.take(s.len() as int) =~= s);
    }
}

/// `str::trim`.
pub fn trim(s: &str) -> (r: String)
    ensures
        r@ == trimmed(s@),
{
    let v = to_chars(s);
    let mut lo: usize = 0;
    assert(s@.skip(0) =~= s@);
    while lo < v.len() && is_space_char(v[lo])
        invariant
            v@ == s@,
            lo <= v@.len(),
            trimmed_start(s@, spaces()) == trimmed_start(s@.skip(lo as int), spaces()),
        decreases v@.len() - lo,
    {
        assert(s@.skip(lo as int).skip(1) =~= s@.skip(lo + 1));
        assert(spaces()(s@.skip(lo as int)[0]));
        lo += 1;
    }
    assert(trimmed_start(s@, spaces()) == s@.skip(lo as int));
    let mut hi: usize = v.len();
    assert(s@.skip(lo as int) =~= s@.subrange(lo as int, hi as int));
    while hi > lo && is_space_char(v[hi - 1])
        invariant
            v@ == s@,
            lo <= hi <= v@.len(),
            trimmed_end(s@.skip(lo as int), spaces()) == trimmed_end(
                s@.subrange(lo as int, hi as int),
                spaces(),
            ),
        decreases hi,
    {
        assert(s@.subrange(lo as int, hi as int).drop_last() =~= s@.subrange(lo as int, hi - 1));
        assert(spaces()(s@.subrange(lo as int, hi as int).last()));
        hi -= 1;
    }
    from_chars(&v, lo, hi)
}

/// `str::trim_start_matches` with a set of characters.
pub fn trim_start_of(s: &str, set: &[char]) -> (r: String)
    ensures
        r@ == trimmed_start(s@, one_of(set@)),
{
    let v = to_chars(s);
    let mut lo: usize = 0;
    assert(s@.skip(0) =~= s@);
    while lo < v.len() && char_in(set, v[lo])
        invariant
            v@ == s@,
            lo <= v@.len(),
            trimmed_start(s@, one_of(set@)) == trimmed_start(s@.skip(lo as int), one_of(set@)),
        decreases v@.len() - lo,
    {
        assert(s@.skip(lo as int).skip(1) =~= s@.skip(lo + 1));
        assert(one_of(set@)(s@.skip(lo as int)[0]));
        lo += 1;
    }
    assert(s@.skip(lo as int) =~= s@.subrange(lo as int, s@.len() as int));
    from_chars(&v, lo, v.len())
}

/// `str::trim_end_matches` with a set of characters.
pub fn trim_end_of(s: &str, set: &[char]) -> (r: String)
    ensures
        r@ == trimmed_end(s@, one_of(set@)),
{
    let v = to_chars(s);
    let mut hi: usize = v.len();
    assert(s@.take(hi as int) =~= s@);
    while hi > 0 && char_in(set, v[hi - 1])
        invariant
            v@ == s@,
            hi <= v@.len(),
            trimmed_end(s@, one_of(set@)) == trimmed_end(s@.take(hi as int), one_of(set@)),
        decreases hi,
    {
        assert(s@.take(hi as int).drop_last() =~= s@.take(hi - 1));
        assert(one_of(set@)(s@.take(hi as int).last()));
        hi -= 1;
    }
    from_chars(&v, 0, hi)
}

// ---------------- searching ----------------

/// `needle` stands in `hay` from position `i` on.
pub open spec fn is_at(hay: Seq<char>, needle: Seq<char>, i: int) -> bool {
    0 <= i && i + needle.len() <= hay.len() && hay.subrange(i, i + needle.len()) == needle
}

/// `needle` stands somewhere in `hay`.
pub open spec fn within(hay: Seq<char>, needle: Seq<char>) -> bool {
    exists|i: int| is_at(hay, needle, i)
}

/// The first position from `from` on at which `needle` stands in `hay`.
pub open spec fn first_at(hay: Seq<char>, needle: Seq<char>, from: int) -> Option<int>
    decreases hay.len() + 1 - from,
{
    if from < 0 || from + needle.len() > hay.len() {
        None
    } else if is_at(hay, needle, from) {
        Some(from)
    } else {
        first_at(hay, needle, from + 1)
    }
}

/// `first_at` is the least position, and it is there when any is.
pub proof fn lemma_first_at(hay: Seq<char>, needle: Seq<char>, from: int)
    requires
        0 <= from,
    ensures
        match first_at(hay, needle, from) {
            Some(i) => from <= i && is_at(hay, needle, i) && forall|j: int|
                from <= j < i ==> !is_at(hay, needle, j),
            None => forall|j: int| from <= j ==> !is_at(hay, needle, j),
        },
    decreases hay.len() + 1 - from,
{
    if from + needle.len() > hay.len() || is_at(hay, needle, from) {
    } else {
        lemma_first_at(hay, needle, from + 1);
    }
}

/// Whether `needle` stands in `hay` at `i`.
fn stands_at(hay: &Vec<char>, needle: &Vec<char>, i: usize) -> (r: bool)
    requires
        i + needle@.len() <= hay@.len(),
    ensures
        r == is_at(hay@, needle@, i as int),
{
    let h = hay.len();
    for k in 0..needle.len()
        invariant
            h == hay@.len(),
            i + needle@.len() <= hay@.len(),
            forall|j: int| 0 <= j < k ==> hay@[i + j] == needle@[j],
    {
        if hay[i + k] != needle[k] {
            assert(hay@.subrange(i as int, i + needle@.len())[k as int] != needle@[k as int]);
            return false;
        }
    }
    assert(hay@.subrange(i as int, i + needle@.len()) =~= needle@);
    true
}

/// The first position from `from` on, over characters already at hand.
fn find_chars(hay: &Vec<char>, needle: &Vec<char>, from: usize) -> (r: Option<usize>)
    ensures
        match r {
            Some(i) => first_at(hay@, needle@, from as int) == Some(i as int),
            None => first_at(hay@, needle@, from as int) is None,
        },
{
    if needle.len() > hay.len() {
        return None;
    }
    let last: usize = hay.len() - needle.len();
    let mut i: usize = from;
    while i <= last
        invariant
            from <= i,
            last + needle@.len() == hay@.len(),
            last < usize::MAX || needle@.len() == 0,
            first_at(hay@, needle@, from as int) == first_at(hay@, needle@, i as int),
        decreases last + 1 - i,
    {
        if stands_at(hay, needle, i) {
            return Some(i);
        }
        if i == last {
            assert(first_at(hay@, needle@, i + 1) is None);
            return None;
        }
        i += 1;
    }
    None
}

/// The character position at which `needle` first stands in `hay`.
pub fn find(hay: &str, needle: &str) -> (r: Option<usize>)
    ensures
        match r {
            Some(i) => first_at(hay@, needle@, 0) == Some(i as int),
            None => first_at(hay@, needle@, 0) is None,
        },
{
    let h = to_chars(hay);
    let n = to_chars(needle);
    find_chars(&h, &n, 0)
}

/// `str::contains` with a text.
pub fn contains(hay: &str, needle: &str) -> (r: bool)
    ensures
        r == within(hay@, needle@),
{
    proof {
        lemma_first_at(hay@, needle@, 0);
    }
    find(hay, needle).is_some()
}

/// Some text of `list` stands in `hay`.
pub open spec fn any_within(hay: Seq<char>, list: Seq<&str>) -> bool {
    exists|i: int| 0 <= i < list.len() && within(hay, #[trigger] list[i]@)
}

/// Whether some text of `list` stands in `hay`.
pub fn contains_any(hay: &str, list: &[&str]) -> (r: bool)
    ensures
        r == any_within(hay@, list@),
{
    for i in 0..list.len()
        invariant
            forall|j: int| 0 <= j < i ==> !within(hay@, #[trigger] list@[j]@),
    {
        if contains(hay, list[i]) {
            return true;
        }
    }
    false
}

/// `str::starts_with` with a text.
pub fn starts_with(s: &str, prefix: &str) -> (r: bool)
    ensures
        r == prefix@.is_prefix_of(s@),
{
    let v = to_chars(s);
    let p = to_chars(prefix);
    if p.len() > v.len() {
        return false;
    }
    let r = stands_at(&v, &p, 0);
    assert(v@.subrange(0, 0int + p@.len()) =~= v@.subrange(0, p@.len() as int));
    r
}

/// `str::ends_with` with a text.
pub fn ends_with(s: &str, suffix: &str) -> (r: bool)
    ensures
        r == suffix@.is_suffix_of(s@),
{
    let v = to_chars(s);
    let p = to_chars(suffix);
    if p.len() > v.len() {
        return false;
    }
    let at = v.len() - p.len();
    let r = stands_at(&v, &p, at);
    assert(v@.subrange(at as int, at + p@.len()) =~= v@.subrange(
        (v@.len() - p@.len()) as int,
        v@.len() as int,
    ));
    r
}

/// `str::strip_prefix` with a text.
pub fn strip_prefix(s: &str, prefix: &str) -> (r: Option<String>)
    ensures
        match r {
            Some(t) => prefix@.is_prefix_of(s@) && t@ == s@.skip(prefix@.len() as int),
            None => !prefix@.is_prefix_of(s@),
        },
{
    if !starts_with(s, prefix) {
        return None;
    }
    let v = to_chars(s);
    let n = to_chars(prefix).len();
    assert(s@.skip(n as int) =~= s@.subrange(n as int, s@.len() as int));
    Some(from_chars(&v, n, v.len()))
}

/// `str::strip_suffix` with a text.
pub fn strip_suffix(s: &str, suffix: &str) -> (r: Option<String>)
    ensures
        match r {
            Some(t) => suffix@.is_suffix_of(s@) && t@ == s@.take(s@.len() - suffix@.len()),
            None => !suffix@.is_suffix_of(s@),
        },
{
    if !ends_with(s, suffix) {
        return None;
    }
    let v = to_chars(s);
    let n = v.len() - to_chars(suffix).len();
    assert(s@.take(n as int) =~= s@.subrange(0, n as int));
    Some(from_chars(&v, 0, n))
}

// ---------------- lists of texts ----------------

/// The contents of a list of owned texts.
pub open spec fn texts(v: Seq<String>) -> Seq<Seq<char>> {
    v.map_values(|s: String| s@)
}

/// The contents of a list of borrowed texts.
pub open spec fn strs(v: Seq<&str>) -> Seq<Seq<char>> {
    v.map_values(|s: &str| s@)
}

/// The contents of an optional owned text.
pub open spec fn opt_text(o: Option<String>) -> Option<Seq<char>> {
    match o {
        Some(s) => Some(s@),
        None => None,
    }
}

/// The contents of an optional borrowed text.
pub open spec fn opt_str(o: Option<&str>) -> Option<Seq<char>> {
    match o {
        Some(s) => Some(s@),
        None => None,
    }
}

/// Appends one text.
pub fn push_text(v: &mut Vec<String>, s: &str)
    ensures
        texts(final(v)@) == texts(old(v)@).push(s@),
{
    v.push(s.to_owned());
    assert(texts(v@) =~= texts(old(v)@).push(s@));
}

/// Appends one owned text.
pub fn push_string(v: &mut Vec<String>, s: String)
    ensures
        texts(final(v)@) == texts(old(v)@).push(s@),
{
    v.push(s);
    assert(texts(v@) =~= texts(old(v)@).push(s@));
}

/// Appends every text of `items`, in order.
pub fn push_all(v: &mut Vec<String>, items: &[&str])
    ensures
        texts(final(v)@) == texts(old(v)@) + strs(items@),
{
    for i in 0..items.len()
        invariant
            texts(v@) == texts(old(v)@) + strs(items@).take(i as int),
    {
        push_text(v, items[i]);
        assert(strs(items@).take(i + 1) =~= strs(items@).take(i as int).push(items@[i as int]@));
    }
    assert(strs(items@).take(items@.len() as int) =~= strs(items@));
}

/// Appends a copy of every text of `items`, in order.
pub fn push_copies(v: &mut Vec<String>, items: &Vec<String>)
    ensures
        texts(final(v)@) == texts(old(v)@) + texts(items@),
{
    for i in 0..items.len()
        invariant
            texts(v@) == texts(old(v)@) + texts(items@).take(i as int),
    {
        push_text(v, items[i].as_str());
        assert(texts(items@).take(i + 1) =~= texts(items@).take(i as int).push(items@[i as int]@));
    }
    assert(texts(items@).take(items@.len() as int) =~= texts(items@));
}

/// A list of texts, owned.
pub fn owned(items: &[&str]) -> (r: Vec<String>)
    ensures
        texts(r@) == strs(items@),
{
    let mut out: Vec<String> = Vec::new();
    push_all(&mut out, items);
    assert(texts(Seq::<String>::empty()) + strs(items@) =~= strs(items@));
    out
}

/// Whether `list` holds a text equal to `s`.
pub fn text_in(list: &Vec<String>, s: &str) -> (r: bool)
    ensures
        r == texts(list@).contains(s@),
{
    for i in 0..list.len()
        invariant
            forall|j: int| 0 <= j < i ==> texts(list@)[j] != s@,
    {
        if same(list[i].as_str(), s) {
            assert(texts(list@)[i as int] == s@);
            return true;
        }
    }
    false
}

/// The texts of `parts` one after another with `sep` between two of them.
pub open spec fn joined(parts: Seq<Seq<char>>, sep: Seq<char>) -> Seq<char>
    decreases parts.len(),
{
    if parts.len() == 0 {
        seq![]
    } else if parts.len() == 1 {
        parts[0]
    } else {
        joined(parts.drop_last(), sep) + sep + parts.last()
    }
}

/// `join` on a list of texts.
pub fn join(parts: &Vec<String>, sep: &str) -> (r: String)
    ensures
        r@ == joined(texts(parts@), sep@),
{
    let mut out = String::new();
    assert(texts(parts@).take(0) =~= seq![]);
    for i in 0..parts.len()
        invariant
            out@ == joined(texts(parts@).take(i as int), sep@),
    {
        let ghost t = texts(parts@).take(i + 1);
        assert(t.drop_last() =~= texts(parts@).take(i as int));
        if i > 0 {
            out.append(sep);
        }
        out.append(parts[i].as_str());
        assert(i == 0 ==> out@ =~= parts@[0]@);
    }
    assert(texts(parts@).take(parts@.len() as int) =~= texts(parts@));
    out
}

// ---------------- splitting ----------------

/// The pieces of `s` between the places where `sep` stands, left to right.
pub open spec fn pieces(s: Seq<char>, sep: Seq<char>) -> Seq<Seq<char>>
    decreases s.len(),
{
    match first_at(s, sep, 0) {
        Some(i) => if sep.len() > 0 && 0 <= i && i + sep.len() <= s.len() {
            seq![s.take(i)] + pieces(s.skip(i + sep.len()), sep)
        } else {
            seq![s]
        },
        None => seq![s],
    }
}

pub proof fn lemma_pieces_nonempty(s: Seq<char>, sep: Seq<char>)
    ensures
        pieces(s, sep).len() >= 1,
{
}

/// A match in a suffix is a match in the whole, shifted.
proof fn lemma_first_at_skip(s: Seq<char>, sep: Seq<char>, from: int, at: int)
    requires
        0 <= from <= s.len(),
        0 <= at,
    ensures
        match first_at(s, sep, from + at) {
            Some(i) => first_at(s.skip(from), sep, at) == Some(i - from),
            None => first_at(s.skip(from), sep, at) is None,
        },
    decreases s.len() + 1 - (from + at),
{
    let t = s.skip(from);
    if from + at + sep.len() > s.len() {
    } else {
        assert(t.subrange(at, at + sep.len()) =~= s.subrange(from + at, from + at + sep.len()));
        if !is_at(s, sep, from + at) {
            lemma_first_at_skip(s, sep, from, at + 1);
        }
    }
}

/// `str::split` with a text that is not empty.
pub fn split(s: &str, sep: &str) -> (r: Vec<String>)
    requires
        sep@.len() > 0,
    ensures
        texts(r@) == pieces(s@, sep@),
{
    let v = to_chars(s);
    let d = to_chars(sep);
    let n = d.len();
    let mut out: Vec<String> = Vec::new();
    let mut from: usize = 0;
    let total = v.len();
    assert(s@.skip(0) =~= s@);
    assert(texts(out@) + pieces(s@, sep@) =~= pieces(s@, sep@));
    loop
        invariant
            v@ == s@,
            d@ == sep@,
            n == sep@.len(),
            n > 0,
            total == s@.len(),
            from <= total,
            pieces(s@, sep@) == texts(out@) + pieces(s@.skip(from as int), sep@),
        decreases total - from,
    {
        proof {
            lemma_first_at_skip(s@, sep@, from as int, 0);
            lemma_first_at(s@, sep@, from as int);
        }
        match find_chars(&v, &d, from) {
            Some(i) => {
                let ghost before = texts(out@);
                assert(s@.skip(from as int).take(i - from) =~= s@.subrange(from as int, i as int));
                assert(s@.skip(from as int).skip(i - from + n) =~= s@.skip(i + n));
                push_string(&mut out, from_chars(&v, from, i));
                from = i + n;
            },
            None => {
                assert(s@.skip(from as int) =~= s@.subrange(from as int, total as int));
                push_string(&mut out, from_chars(&v, from, total));
                return out;
            },
        }
    }
}

/// One piece more in front of others.
pub proof fn lemma_joined_front(head: Seq<char>, parts: Seq<Seq<char>>, sep: Seq<char>)
    requires
        parts.len() >= 1,
    ensures
        joined(seq![head] + parts, sep) == head + sep + joined(parts, sep),
    decreases parts.len(),
{
    let all = seq![head] + parts;
    if parts.len() == 1 {
        assert(all.drop_last() =~= seq![head]);
        assert(joined(all.drop_last(), sep) == head);
        assert(all.last() == parts[0]);
        assert(joined(all, sep) =~= head + sep + parts[0]);
    } else {
        lemma_joined_front(head, parts.drop_last(), sep);
        assert(all.drop_last() =~= seq![head] + parts.drop_last());
        assert(all.last() == parts.last());
        assert(joined(all, sep) =~= head + sep + joined(parts, sep));
    }
}

/// The pieces of a text, joined by what separated them, are that text again.
pub proof fn lemma_joined_pieces(s: Seq<char>, sep: Seq<char>)
    ensures
        joined(pieces(s, sep), sep) == s,
    decreases s.len(),
{
    lemma_first_at(s, sep, 0);
    match first_at(s, sep, 0) {
        Some(i) => if sep.len() > 0 {
            let rest = s.skip(i + sep.len());
            lemma_joined_pieces(rest, sep);
            lemma_pieces_nonempty(rest, sep);
            lemma_joined_front(s.take(i), pieces(rest, sep), sep);
            assert(s.take(i) + sep + rest =~= s) by {
                assert(s.subrange(i, i + sep.len()) == sep);
            }
        },
        None => {},
    }
}

/// `str::replace` of one text by another: what stands between the places of
/// `from`, joined by `to`.
pub open spec fn replaced(s: Seq<char>, from: Seq<char>, to: Seq<char>) -> Seq<char> {
    joined(pieces(s, from), to)
}

/// `str::replace` with a text that is not empty.
pub fn replace(s: &str, from: &str, to: &str) -> (r: String)
    requires
        from@.len() > 0,
    ensures
        r@ == replaced(s@, from@, to@),
{
    join(&split(s, from), to)
}

/// What stands before and after the first place of `sep`.
pub open spec fn cut_first(s: Seq<char>, sep: Seq<char>) -> Option<(Seq<char>, Seq<char>)> {
    match first_at(s, sep, 0) {
        Some(i) => Some((s.take(i), s.skip(i + sep.len()))),
        None => None,
    }
}

/// The contents of an optional pair of owned texts.
pub open spec fn opt_pair(o: Option<(String, String)>) -> Option<(Seq<char>, Seq<char>)> {
    match o {
        Some((a, b)) => Some((a@, b@)),
        None => None,
    }
}

/// `str::split_once`.
pub fn split_once(s: &str, sep: &str) -> (r: Option<(String, String)>)
    ensures
        opt_pair(r) == cut_first(s@, sep@),
{
    let v = to_chars(s);
    let d = to_chars(sep);
    let total = v.len();
    match find_chars(&v, &d, 0) {
        Some(i) => {
            proof {
                lemma_first_at(s@, sep@, 0);
            }
            assert(s@.take(i as int) =~= s@.subrange(0, i as int));
            assert(s@.skip(i + d@.len()) =~= s@.subrange(i + d@.len(), s@.len() as int));
            Some((from_chars(&v, 0, i), from_chars(&v, i + d.len(), total)))
        },
        None => None,
    }
}

/// The last position up to `from` at which `needle` stands in `hay`.
pub open spec fn last_at(hay: Seq<char>, needle: Seq<char>, from: int) -> Option<int>
    decreases from + 1,
{
    if from < 0 {
        None
    } else if is_at(hay, needle, from) {
        Some(from)
    } else {
        last_at(hay, needle, from - 1)
    }
}

/// What stands before and after the last place of `sep`.
pub open spec fn cut_last(s: Seq<char>, sep: Seq<char>) -> Option<(Seq<char>, Seq<char>)> {
    match last_at(s, sep, s.len() - sep.len()) {
        Some(i) => Some((s.take(i), s.skip(i + sep.len()))),
        None => None,
    }
}

/// `str::rsplit_once`.
pub fn rsplit_once(s: &str, sep: &str) -> (r: Option<(String, String)>)
    ensures
        opt_pair(r) == cut_last(s@, sep@),
{
    let v = to_chars(s);
    let d = to_chars(sep);
    if d.len() > v.len() {
        return None;
    }
    let total = v.len();
    let mut i: usize = total - d.len();
    loop
        invariant
            total == v@.len(),
            v@ == s@,
            d@ == sep@,
            i + d@.len() <= v@.len(),
            last_at(s@, sep@, s@.len() - sep@.len()) == last_at(s@, sep@, i as int),
        decreases i,
    {
        if stands_at(&v, &d, i) {
            assert(s@.take(i as int) =~= s@.subrange(0, i as int));
            assert(s@.skip(i + d@.len()) =~= s@.subrange(i + d@.len(), s@.len() as int));
            return Some((from_chars(&v, 0, i), from_chars(&v, i + d.len(), total)));
        }
        if i == 0 {
            assert(last_at(s@, sep@, -1) is None);
            return None;
        }
        i -= 1;
    }
}

/// One line as it stands before its line feed: without a carriage return.
pub open spec fn without_cr(s: Seq<char>) -> Seq<char> {
    if s.len() > 0 && s.last() == '\r' {
        s.drop_last()
    } else {
        s
    }
}

/// The lines of `s`: each ends at a line feed, a carriage return before that
/// belongs to the ending, and a last line may go without one.
pub open spec fn line_list(s: Seq<char>) -> Seq<Seq<char>> {
    let p = pieces(s, seq!['\n']);
    let n = p.len();
    let ended = Seq::new((n - 1) as nat, |i: int| without_cr(p[i]));
    if p.last().len() == 0 {
        ended
    } else {
        ended.push(p.last())
    }
}

/// `str::lines`.
pub fn lines(s: &str) -> (r: Vec<String>)
    ensures
        texts(r@) == line_list(s@),
{
    proof {
        reveal_strlit("\n");
        reveal_strlit("\r");
        lemma_pieces_nonempty(s@, "\n"@);
        assert("\n"@ =~= seq!['\n']);
        assert("\r"@ =~= seq!['\r']);
    }
    let parts = split(s, "\n");
    let last = parts.len() - 1;
    let mut out: Vec<String> = Vec::new();
    for i in 0..last
        invariant
            last + 1 == parts@.len(),
            "\r"@ == seq!['\r'],
            out@.len() == i,
            forall|j: int| 0 <= j < i ==> #[trigger] out@[j]@ == without_cr(parts@[j]@),
    {
        let line = match strip_suffix(parts[i].as_str(), "\r") {
            Some(t) => {
                let ghost p = parts@[i as int]@;
                assert(p.subrange(p.len() - 1, p.len() as int)[0] == '\r');
                assert(t@ =~= without_cr(p));
                t
            },
            None => {
                proof {
                    let p = parts@[i as int]@;
                    if p.len() > 0 && p.last() == '\r' {
                        assert(p.subrange(p.len() - 1, p.len() as int) =~= seq!['\r']);
                    }
                }
                parts[i].clone()
            },
        };
        out.push(line);
    }
    let ghost p = pieces(s@, seq!['\n']);
    assert(texts(parts@)[last as int] == p.last());
    assert(texts(out@) =~= Seq::new((p.len() - 1) as nat, |i: int| without_cr(p[i])));
    if !parts[last].as_str().is_empty() {
        push_text(&mut out, parts[last].as_str());
    }
    out
}

/// The length of the longest prefix of `s` without white space.
pub open spec fn word_len(s: Seq<char>) -> int
    decreases s.len(),
{
    if s.len() == 0 || is_space(s[0]) {
        0
    } else {
        1 + word_len(s.skip(1))
    }
}

pub proof fn lemma_word_len(s: Seq<char>)
    ensures
        0 <= word_len(s) <= s.len(),
        s.len() > 0 && !is_space(s[0]) ==> word_len(s) > 0,
    decreases s.len(),
{
    if s.len() > 0 && !is_space(s[0]) {
        lemma_word_len(s.skip(1));
    }
}

/// The words of `s`: its longest runs without white space, left to right.
pub open spec fn word_list(s: Seq<char>) -> Seq<Seq<char>>
    decreases s.len(),
{
    if s.len() == 0 {
        seq![]
    } else if is_space(s[0]) {
        word_list(s.skip(1))
    } else if 0 < word_len(s) <= s.len() {
        seq![s.take(word_len(s))] + word_list(s.skip(word_len(s)))
    } else {
        seq![]
    }
}

/// `str::split_whitespace`.
pub fn words(s: &str) -> (r: Vec<String>)
    ensures
        texts(r@) == word_list(s@),
{
    let v = to_chars(s);
    let total = v.len();
    let mut out: Vec<String> = Vec::new();
    let mut i: usize = 0;
    assert(s@.skip(0) =~= s@);
    assert(texts(out@) + word_list(s@) =~= word_list(s@));
    while i < total
        invariant
            v@ == s@,
            total == s@.len(),
            i <= total,
            word_list(s@) == texts(out@) + word_list(s@.skip(i as int)),
        decreases total - i,
    {
        let ghost rest = s@.skip(i as int);
        if is_space_char(v[i]) {
            assert(rest.skip(1) =~= s@.skip(i + 1));
            i += 1;
        } else {
            let start = i;
            proof {
                lemma_word_len(rest);
            }
            while i < total && !is_space_char(v[i])
                invariant
                    v@ == s@,
                    total == s@.len(),
                    start <= i <= total,
                    rest == s@.skip(start as int),
                    word_len(rest) == (i - start) + word_len(s@.skip(i as int)),
                decreases total - i,
            {
                assert(s@.skip(i as int).skip(1) =~= s@.skip(i + 1));
                i += 1;
            }
            assert(word_len(rest) == i - start);
            assert(rest.take(i - start) =~= s@.subrange(start as int, i as int));
            assert(rest.skip(i - start) =~= s@.skip(i as int));
            push_string(&mut out, from_chars(&v, start, i));
        }
    }
    assert(word_list(s@.skip(i as int)) =~= seq![]);
    out
}

// ---------------- taking texts apart ----------------

/// The place where a text stands with no place before it is the first.
pub proof fn lemma_first_is(hay: Seq<char>, needle: Seq<char>, i: int)
    requires
        is_at(hay, needle, i),
        forall|j: int| 0 <= j < i ==> !is_at(hay, needle, j),
    ensures
        first_at(hay, needle, 0) == Some(i),
{
    lemma_first_at(hay, needle, 0);
}

/// A text with no white space at either end stays as it is when trimmed.
pub proof fn lemma_trimmed_stays(s: Seq<char>)
    requires
        s.len() > 0 ==> !is_space(s[0]) && !is_space(s.last()),
    ensures
        trimmed(s) == s,
{
    assert(trimmed_start(s, spaces()) == s);
}

/// A text is cut at the first place of a character.
pub proof fn lemma_first_piece(a: Seq<char>, c: char, rest: Seq<char>)
    requires
        !a.contains(c),
    ensures
        pieces(a.push(c) + rest, seq![c]) == seq![a] + pieces(rest, seq![c]),
{
    let s = a.push(c) + rest;
    let n = a.len() as int;
    assert(s.subrange(n, n + 1) =~= seq![c]);
    assert forall|j: int| 0 <= j < n implies !is_at(s, seq![c], j) by {
        if is_at(s, seq![c], j) {
            assert(s.subrange(j, j + 1)[0] == c);
            assert(a[j] == c);
        }
    }
    lemma_first_is(s, seq![c], n);
    assert(s.take(n) =~= a);
    assert(s.skip(n + 1) =~= rest);
}

/// A text without a character is one piece.
pub proof fn lemma_one_piece(a: Seq<char>, c: char)
    requires
        !a.contains(c),
    ensures
        pieces(a, seq![c]) == seq![a],
{
    lemma_first_at(a, seq![c], 0);
    if let Some(i) = first_at(a, seq![c], 0) {
        assert(a.subrange(i, i + 1)[0] == c);
        assert(a[i] == c);
    }
}

/// A text has no white space in it.
pub open spec fn is_word(s: Seq<char>) -> bool {
    s.len() > 0 && forall|i: int| 0 <= i < s.len() ==> !is_space(#[trigger] s[i])
}

proof fn lemma_word_then(a: Seq<char>, rest: Seq<char>)
    requires
        forall|i: int| 0 <= i < a.len() ==> !is_space(#[trigger] a[i]),
        rest.len() == 0 || is_space(rest[0]),
    ensures
        word_len(a + rest) == a.len(),
    decreases a.len(),
{
    if a.len() == 0 {
        assert(a + rest =~= rest);
    } else {
        assert((a + rest)[0] == a[0]);
        assert((a + rest).skip(1) =~= a.skip(1) + rest);
        lemma_word_then(a.skip(1), rest);
    }
}

/// The first word of a text is what stands before its first white space.
pub proof fn lemma_first_word(a: Seq<char>, rest: Seq<char>)
    requires
        is_word(a),
        rest.len() == 0 || is_space(rest[0]),
    ensures
        word_list(a + rest) == seq![a] + word_list(rest),
{
    let s = a + rest;
    lemma_word_then(a, rest);
    assert(s[0] == a[0]);
    assert(s.take(a.len() as int) =~= a);
    assert(s.skip(a.len() as int) =~= rest);
}

/// White space in front of a text adds no word.
pub proof fn lemma_space_before(c: char, rest: Seq<char>)
    requires
        is_space(c),
    ensures
        word_list(seq![c] + rest) == word_list(rest),
{
    assert((seq![c] + rest).skip(1) =~= rest);
}

/// A text without white space around it begins and ends in none, and nothing
/// but white space was taken away.
pub proof fn trimming_takes_white_space_only(s: Seq<char>)
    ensures
        trimmed(s).len() > 0 ==> !is_space(trimmed(s)[0]) && !is_space(trimmed(s).last()),
        exists|a: int, b: int|
            0 <= a <= b <= s.len() && trimmed(s) == #[trigger] s.subrange(a, b) && forall|j: int|
                (0 <= j < a || b <= j < s.len()) ==> is_space(#[trigger] s[j]),
{
    let f = trimmed_start(s, spaces());
    let t = trimmed(s);
    lemma_trimmed_start(s, spaces());
    lemma_trimmed_end(f, spaces());
    lemma_dropped_end(f, spaces());
    let a = s.len() - f.len();
    let b = a + t.len();
    assert(t =~= s.subrange(a, b));
    assert forall|j: int| (0 <= j < a || b <= j < s.len()) implies is_space(#[trigger] s[j]) by {
        if j < a {
            assert(spaces()(s[j]));
        } else {
            assert(s[j] == f[j - a]);
            assert(spaces()(f[j - a]));
        }
    }
    if t.len() > 0 {
        assert(t[0] == f[0]);
        assert(!spaces()(f[0]));
        assert(!spaces()(t.last()));
    }
}

proof fn lemma_dropped_end(s: Seq<char>, drop: spec_fn(char) -> bool)
    ensures
        forall|i: int| trimmed_end(s, drop).len() <= i < s.len() ==> #[trigger] drop(s[i]),
    decreases s.len(),
{
    if s.len() > 0 && drop(s.last()) {
        lemma_trimmed_end(s.drop_last(), drop);
        lemma_dropped_end(s.drop_last(), drop);
        let t = trimmed_end(s, drop);
        assert forall|i: int| t.len() <= i < s.len() implies #[trigger] drop(s[i]) by {
            if i < s.len() - 1 {
                assert(s.drop_last()[i] == s[i]);
            }
        }
    }
}

/// Lowering changes the capitals from A to Z and nothing else, in a text of
/// ASCII characters.
pub proof fn lowering_changes_capitals_only(s: Seq<char>, i: int)
    requires
        vstd::utf8::is_ascii_chars(s),
        0 <= i < s.len(),
    ensures
        lowered(s).len() == s.len(),
        'A' <= s[i] <= 'Z' ==> lowered(s)[i] as u32 == s[i] as u32 + 32,
        !('A' <= s[i] <= 'Z') ==> lowered(s)[i] == s[i],
{
}

/// A text is found wherever it stands in another, and cut out at its first or at
/// its last place.
pub proof fn a_text_is_found_where_it_stands(a: Seq<char>, n: Seq<char>, b: Seq<char>)
    ensures
        within(a + n + b, n),
        within(a, n) <==> exists|i: int|
            0 <= i && i + n.len() <= a.len() && #[trigger] a.subrange(i, i + n.len()) == n,
{
    let s = a + n + b;
    let k = a.len() as int;
    assert(s.subrange(k, k + n.len()) =~= n);
    assert(is_at(s, n, k));
    if within(a, n) {
        let i = choose|i: int| is_at(a, n, i);
        assert(a.subrange(i, i + n.len()) == n);
    }
    if exists|i: int| 0 <= i && i + n.len() <= a.len() && #[trigger] a.subrange(i, i + n.len()) == n {
        let i = choose|i: int|
            0 <= i && i + n.len() <= a.len() && #[trigger] a.subrange(i, i + n.len()) == n;
        assert(is_at(a, n, i));
    }
}

/// Among the ASCII characters white space is the space and the five from the tab
/// to the carriage return.
pub proof fn white_space_is_the_space_and_the_line_ends(c: char)
    requires
        c as u32 <= 127,
    ensures
        is_space(c) <==> c == ' ' || c == '\t' || c == '\n' || c == '\r' || c as u32 == 11 || c
            as u32 == 12,
{
}

/// A text falls into its lines, however they end.
pub proof fn a_text_falls_into_its_lines(a: Seq<char>, b: Seq<char>)
    requires
        !a.contains('\n') && !b.contains('\n'),
        a.len() > 0 ==> a.last() != '\r',
        b.len() > 0,
    ensures
        line_list(a + seq!['\n'] + b) == seq![a, b],
        line_list(a + seq!['\r', '\n'] + b) == seq![a, b],
        line_list(a + seq!['\n']) == seq![a],
        line_list(b) == seq![b],
{
    let e = Seq::<char>::empty();
    assert(a + seq!['\n'] + b =~= a.push('\n') + b);
    assert(a + seq!['\n'] =~= a.push('\n') + e);
    lemma_one_piece(b, '\n');
    lemma_one_piece(e, '\n');
    lemma_first_piece(a, '\n', b);
    lemma_first_piece(a, '\n', e);
    assert(pieces(a.push('\n') + b, seq!['\n']) =~= seq![a, b]);
    assert(pieces(a.push('\n') + e, seq!['\n']) =~= seq![a, e]);
    assert(pieces(b, seq!['\n']) =~= seq![b]);
    assert(line_list(a.push('\n') + b) =~= seq![a, b]);
    assert(line_list(a.push('\n') + e) =~= seq![a]);
    assert(line_list(b) =~= seq![b]);
    let c = a.push('\r');
    assert(!c.contains('\n')) by {
        if c.contains('\n') {
            let i = choose|i: int| 0 <= i < c.len() && c[i] == '\n';
            if i < a.len() {
                assert(a[i] == '\n');
            }
        }
    }
    assert(a + seq!['\r', '\n'] + b =~= c.push('\n') + b);
    lemma_first_piece(c, '\n', b);
    assert(pieces(c.push('\n') + b, seq!['\n']) =~= seq![c, b]);
    assert(c.drop_last() =~= a);
    assert(line_list(c.push('\n') + b) =~= seq![a, b]);
}

} // verus!
