//! Command lines: which options one holds, and with which values.

use crate::text::is_digit;
use vstd::prelude::*;

verus! {

// ---------------- options ----------------

/// The command holds no such word.
pub open spec fn lacks(cmd: Seq<Seq<char>>, word: Seq<char>) -> bool {
    forall|i: int| 0 <= i < cmd.len() ==> #[trigger] cmd[i] != word
}

/// The option stands in the command with a value directly behind it.
pub open spec fn asks(cmd: Seq<Seq<char>>, option: Seq<char>, value: Seq<char>) -> bool {
    exists|i: int|
        0 <= i && i + 1 < cmd.len() && #[trigger] cmd[i] == option && cmd[i + 1] == value
}

/// The option stands in the command, and wherever it does the value is directly
/// behind it.
pub open spec fn gives(cmd: Seq<Seq<char>>, option: Seq<char>, value: Seq<char>) -> bool {
    &&& asks(cmd, option, value)
    &&& forall|i: int|
        0 <= i < cmd.len() && #[trigger] cmd[i] == option ==> i + 1 < cmd.len() && cmd[i + 1]
            == value
}

/// The option has a value, or does not stand in the command at all.
pub open spec fn has_value(
    cmd: Seq<Seq<char>>,
    option: Seq<char>,
    value: Option<Seq<char>>,
) -> bool {
    match value {
        Some(v) => gives(cmd, option, v),
        None => lacks(cmd, option),
    }
}

/// The word stands in the command exactly when it is to.
pub open spec fn says(cmd: Seq<Seq<char>>, word: Seq<char>, wanted: bool) -> bool {
    cmd.contains(word) <==> wanted
}

/// The parts of a command, one after the other.
pub open spec fn strung(parts: Seq<Seq<Seq<char>>>) -> Seq<Seq<char>>
    decreases parts.len(),
{
    if parts.len() == 0 {
        seq![]
    } else {
        strung(parts.drop_last()) + parts.last()
    }
}

proof fn lemma_asks_in(a: Seq<Seq<char>>, b: Seq<Seq<char>>, option: Seq<char>, value: Seq<char>)
    requires
        asks(a, option, value) || asks(b, option, value),
    ensures
        asks(a + b, option, value),
{
    let s = a + b;
    if asks(a, option, value) {
        let i = choose|i: int|
            0 <= i && i + 1 < a.len() && #[trigger] a[i] == option && a[i + 1] == value;
        assert(s[i] == option && s[i + 1] == value);
    } else {
        let i = choose|i: int|
            0 <= i && i + 1 < b.len() && #[trigger] b[i] == option && b[i + 1] == value;
        assert(s[a.len() + i] == option && s[a.len() + i + 1] == value);
    }
}

proof fn lemma_lacks_in(a: Seq<Seq<char>>, b: Seq<Seq<char>>, word: Seq<char>)
    requires
        lacks(a, word),
        lacks(b, word),
    ensures
        lacks(a + b, word),
{
    let s = a + b;
    assert forall|i: int| 0 <= i < s.len() implies #[trigger] s[i] != word by {
        if i < a.len() {
            assert(s[i] == a[i]);
        } else {
            assert(s[i] == b[i - a.len()]);
        }
    }
}

proof fn lemma_gives_in(a: Seq<Seq<char>>, b: Seq<Seq<char>>, option: Seq<char>, value: Seq<char>)
    requires
        (gives(a, option, value) && lacks(b, option)) || (lacks(a, option) && gives(
            b,
            option,
            value,
        )),
    ensures
        gives(a + b, option, value),
{
    let s = a + b;
    lemma_asks_in(a, b, option, value);
    assert forall|i: int| 0 <= i < s.len() && #[trigger] s[i] == option implies i + 1 < s.len()
        && s[i + 1] == value by {
        if i < a.len() {
            assert(a[i] == option);
            assert(s[i + 1] == a[i + 1]);
        } else {
            assert(b[i - a.len()] == option);
            assert(s[i + 1] == b[i - a.len() + 1]);
        }
    }
}

/// A word that is in no part is not in the command.
pub proof fn lemma_strung_lacks(parts: Seq<Seq<Seq<char>>>, word: Seq<char>)
    requires
        forall|j: int| 0 <= j < parts.len() ==> lacks(#[trigger] parts[j], word),
    ensures
        lacks(strung(parts), word),
    decreases parts.len(),
{
    if parts.len() > 0 {
        let less = parts.drop_last();
        assert forall|j: int| 0 <= j < less.len() implies lacks(#[trigger] less[j], word) by {
            assert(less[j] == parts[j]);
        }
        lemma_strung_lacks(less, word);
        assert(lacks(parts[parts.len() - 1], word));
        lemma_lacks_in(strung(less), parts.last(), word);
    }
}

/// An option that stands in one part alone has the value there in the command.
pub proof fn lemma_strung_gives(
    parts: Seq<Seq<Seq<char>>>,
    k: int,
    option: Seq<char>,
    value: Seq<char>,
)
    requires
        0 <= k < parts.len(),
        gives(parts[k], option, value),
        forall|j: int| 0 <= j < parts.len() && j != k ==> lacks(#[trigger] parts[j], option),
    ensures
        gives(strung(parts), option, value),
    decreases parts.len(),
{
    let less = parts.drop_last();
    assert forall|j: int| 0 <= j < less.len() && j != k implies lacks(
        #[trigger] less[j],
        option,
    ) by {
        assert(less[j] == parts[j]);
    }
    if k < less.len() {
        assert(less[k] == parts[k]);
        assert(lacks(parts[parts.len() - 1], option));
        lemma_strung_gives(less, k, option, value);
    } else {
        lemma_strung_lacks(less, option);
    }
    lemma_gives_in(strung(less), parts.last(), option, value);
}

/// What one part asks for the command asks for.
pub proof fn lemma_strung_asks(
    parts: Seq<Seq<Seq<char>>>,
    k: int,
    option: Seq<char>,
    value: Seq<char>,
)
    requires
        0 <= k < parts.len(),
        asks(parts[k], option, value),
    ensures
        asks(strung(parts), option, value),
    decreases parts.len(),
{
    let less = parts.drop_last();
    if k < less.len() {
        assert(less[k] == parts[k]);
        lemma_strung_asks(less, k, option, value);
    }
    lemma_asks_in(strung(less), parts.last(), option, value);
}

/// A word of one part is a word of the command.
pub proof fn lemma_strung_contains(parts: Seq<Seq<Seq<char>>>, k: int, word: Seq<char>)
    requires
        0 <= k < parts.len(),
        parts[k].contains(word),
    ensures
        strung(parts).contains(word),
    decreases parts.len(),
{
    let less = parts.drop_last();
    let s = strung(parts);
    if k < less.len() {
        assert(less[k] == parts[k]);
        lemma_strung_contains(less, k, word);
        let i = choose|i: int| 0 <= i < strung(less).len() && strung(less)[i] == word;
        assert(s[i] == word);
    } else {
        let i = choose|i: int| 0 <= i < parts[k].len() && parts[k][i] == word;
        assert(s[strung(less).len() + i] == word);
    }
}

// ---------------- telling words apart ----------------

/// A word begins as an option does: with a hyphen, and no number behind it.
pub open spec fn is_option(word: Seq<char>) -> bool {
    word.len() > 1 && word[0] == '-' && !is_digit(word[1])
}

/// A number made of the length of a word and of three of its characters. Words
/// with different numbers are different words.
#[verifier::opaque]
pub open spec fn mark(word: Seq<char>) -> int {
    word.len() + 100 * (word[word.len() as int / 2] as u32) + 100_000 * (word[word.len() - 1] as u32)
        + 100_000_000 * (word[word.len() as int / 3] as u32)
}

} // verus!
