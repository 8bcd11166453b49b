//! A small map from text to text, kept in the order of its keys.

use crate::text::{opt_str, same, to_chars};
use vstd::prelude::*;

verus! {

/// `a` stands before `b`: by the first character in which they differ, a text
/// before every longer text that it begins.
pub open spec fn text_less(a: Seq<char>, b: Seq<char>) -> bool
    decreases a.len(),
{
    if b.len() == 0 {
        false
    } else if a.len() == 0 {
        true
    } else if a[0] != b[0] {
        a[0] < b[0]
    } else {
        text_less(a.skip(1), b.skip(1))
    }
}

proof fn lemma_less_irreflexive(a: Seq<char>)
    ensures
        !text_less(a, a),
    decreases a.len(),
{
    if a.len() > 0 {
        lemma_less_irreflexive(a.skip(1));
    }
}

proof fn lemma_less_transitive(a: Seq<char>, b: Seq<char>, c: Seq<char>)
    requires
        text_less(a, b),
        text_less(b, c),
    ensures
        text_less(a, c),
    decreases a.len(),
{
    if a.len() > 0 && a[0] == b[0] && b[0] == c[0] {
        lemma_less_transitive(a.skip(1), b.skip(1), c.skip(1));
    }
}

proof fn lemma_less_total(a: Seq<char>, b: Seq<char>)
    ensures
        text_less(a, b) || text_less(b, a) || a == b,
    decreases a.len(),
{
    if a.len() > 0 && b.len() > 0 && a[0] == b[0] {
        lemma_less_total(a.skip(1), b.skip(1));
        if a.skip(1) == b.skip(1) {
            assert(a =~= seq![a[0]] + a.skip(1));
            assert(b =~= seq![b[0]] + b.skip(1));
        }
    } else if a.len() == 0 && b.len() == 0 {
        assert(a =~= b);
    }
}

/// Whether `a` stands before `b`.
pub fn less(a: &str, b: &str) -> (r: bool)
    ensures
        r == text_less(a@, b@),
{
    let x = to_chars(a);
    let y = to_chars(b);
    let mut i: usize = 0;
    assert(a@.skip(0) =~= a@);
    assert(b@.skip(0) =~= b@);
    while i < x.len() && i < y.len()
        invariant
            x@ == a@,
            y@ == b@,
            i <= x@.len(),
            i <= y@.len(),
            text_less(a@, b@) == text_less(a@.skip(i as int), b@.skip(i as int)),
        decreases x@.len() - i,
    {
        assert(a@.skip(i as int).skip(1) =~= a@.skip(i + 1));
        assert(b@.skip(i as int).skip(1) =~= b@.skip(i + 1));
        if x[i] != y[i] {
            return x[i] < y[i];
        }
        i += 1;
    }
    i < y.len()
}

/// A map from text to text. The entries stand in the order of their keys, and
/// no key occurs twice.
#[derive(Debug)]
pub struct Dict {
    entries: Vec<(String, String)>,
}

/// The contents of a list of pairs.
pub open spec fn pair_texts(v: Seq<(String, String)>) -> Seq<(Seq<char>, Seq<char>)> {
    v.map_values(|p: (String, String)| (p.0@, p.1@))
}

/// The keys stand in strictly rising order.
pub open spec fn rising(v: Seq<(Seq<char>, Seq<char>)>) -> bool {
    forall|i: int, j: int| 0 <= i < j < v.len() ==> text_less(#[trigger] v[i].0, #[trigger] v[j].0)
}

impl Dict {
    /// The entries, in the order of their keys.
    pub closed spec fn pairs(&self) -> Seq<(Seq<char>, Seq<char>)> {
        pair_texts(self.entries@)
    }

    pub open spec fn wf(&self) -> bool {
        rising(self.pairs())
    }

    /// What stands under a key.
    pub open spec fn at(&self, key: Seq<char>) -> Option<Seq<char>> {
        if exists|i: int| 0 <= i < self.pairs().len() && #[trigger] self.pairs()[i].0 == key {
            Some(
                self.pairs()[choose|i: int|
                    0 <= i < self.pairs().len() && #[trigger] self.pairs()[i].0 == key].1,
            )
        } else {
            None
        }
    }

    /// The one entry with a given key.
    proof fn lemma_at(&self, i: int)
        requires
            self.wf(),
            0 <= i < self.pairs().len(),
        ensures
            self.at(self.pairs()[i].0) == Some(self.pairs()[i].1),
    {
        let key = self.pairs()[i].0;
        let k = choose|k: int| 0 <= k < self.pairs().len() && #[trigger] self.pairs()[k].0 == key;
        lemma_less_irreflexive(key);
    }

    pub fn new() -> (r: Dict)
        ensures
            r.wf(),
            r.pairs().len() == 0,
            forall|k: Seq<char>| r.at(k) is None,
    {
        Dict { entries: Vec::new() }
    }

    pub fn is_empty(&self) -> (r: bool)
        ensures
            r == (self.pairs().len() == 0),
    {
        self.entries.len() == 0
    }

    pub fn len(&self) -> (r: usize)
        ensures
            r == self.pairs().len(),
    {
        self.entries.len()
    }

    /// The `i`-th entry in the order of the keys.
    pub fn entry(&self, i: usize) -> (r: (&str, &str))
        requires
            i < self.pairs().len(),
        ensures
            (r.0@, r.1@) == self.pairs()[i as int],
    {
        (self.entries[i].0.as_str(), self.entries[i].1.as_str())
    }

    /// What stands under `key`.
    pub fn get(&self, key: &str) -> (r: Option<&str>)
        requires
            self.wf(),
        ensures
            opt_str(r) == self.at(key@),
    {
        for i in 0..self.entries.len()
            invariant
                self.wf(),
                forall|j: int| 0 <= j < i ==> #[trigger] self.pairs()[j].0 != key@,
        {
            assert(self.pairs()[i as int].0 == self.entries@[i as int].0@);
            if same(self.entries[i].0.as_str(), key) {
                proof {
                    self.lemma_at(i as int);
                }
                return Some(self.entries[i].1.as_str());
            }
        }
        None
    }

    /// Puts `value` under `key`, in place of what stood there.
    pub fn insert(&mut self, key: &str, value: &str)
        requires
            old(self).wf(),
        ensures
            final(self).wf(),
            final(self).at(key@) == Some(value@),
            forall|k: Seq<char>| k != key@ ==> #[trigger] final(self).at(k) == old(self).at(k),
    {
        let mut i: usize = 0;
        while i < self.entries.len() && less(self.entries[i].0.as_str(), key)
            invariant
                i <= self.entries@.len(),
                *self == *old(self),
                forall|j: int| 0 <= j < i ==> text_less(#[trigger] self.pairs()[j].0, key@),
            decreases self.entries@.len() - i,
        {
            assert(self.pairs()[i as int].0 == self.entries@[i as int].0@);
            i += 1;
        }
        let ghost before = old(self).pairs();
        let ghost n = before.len();
        proof {
            lemma_less_irreflexive(key@);
        }
        if i < self.entries.len() && same(self.entries[i].0.as_str(), key) {
            assert(before[i as int].0 == key@);
            self.entries.set(i, (key.to_owned(), value.to_owned()));
            assert(self.pairs() =~= before.update(i as int, (key@, value@)));
            assert forall|k: Seq<char>| k != key@ implies #[trigger] self.at(k) == old(self).at(k) by {
                self.lemma_keeps(*old(self), k, i as int, 0);
            }
            assert(self.pairs()[i as int] == (key@, value@));
        } else {
            assert(i < n ==> before[i as int].0 == self.entries@[i as int].0@);
            self.entries.insert(i, (key.to_owned(), value.to_owned()));
            assert(self.pairs() =~= before.insert(i as int, (key@, value@)));
            assert forall|a: int, b: int| 0 <= a < b < self.pairs().len() implies text_less(
                #[trigger] self.pairs()[a].0,
                #[trigger] self.pairs()[b].0,
            ) by {
                if i < n {
                    lemma_less_total(before[i as int].0, key@);
                    if b > i + 1 {
                        lemma_less_transitive(key@, before[i as int].0, before[b - 1].0);
                    }
                }
            }
            assert forall|k: Seq<char>| k != key@ implies #[trigger] self.at(k) == old(self).at(k) by {
                self.lemma_keeps(*old(self), k, i as int, 1);
            }
            assert(self.pairs()[i as int] == (key@, value@));
        }
        proof {
            self.lemma_at(i as int);
        }
    }

    /// What stands under a key other than the one at `i` stays when that entry
    /// is put in (`shift` one) or written over (`shift` zero).
    proof fn lemma_keeps(&self, other: Dict, k: Seq<char>, i: int, shift: int)
        requires
            self.wf(),
            other.wf(),
            shift == 0 || shift == 1,
            self.pairs().len() == other.pairs().len() + shift,
            0 <= i < self.pairs().len(),
            self.pairs()[i].0 != k,
            shift == 0 ==> other.pairs()[i].0 != k,
            forall|j: int| 0 <= j < i ==> self.pairs()[j] == other.pairs()[j],
            forall|j: int|
                i < j < self.pairs().len() ==> #[trigger] self.pairs()[j] == other.pairs()[j - shift],
        ensures
            self.at(k) == other.at(k),
    {
        if exists|j: int| 0 <= j < self.pairs().len() && #[trigger] self.pairs()[j].0 == k {
            let j = choose|j: int| 0 <= j < self.pairs().len() && #[trigger] self.pairs()[j].0 == k;
            let o = if j < i {
                j
            } else {
                j - shift
            };
            assert(other.pairs()[o].0 == k);
            self.lemma_at(j);
            other.lemma_at(o);
        } else if exists|j: int| 0 <= j < other.pairs().len() && #[trigger] other.pairs()[j].0 == k {
            let j = choose|j: int|
                0 <= j < other.pairs().len() && #[trigger] other.pairs()[j].0 == k;
            let o = if j < i {
                j
            } else {
                j + shift
            };
            assert(self.pairs()[o].0 == k);
        }
    }
}

} // verus!
