//! JSON documents as plain values.

use crate::number::{dec, parse_u64, parse_undoes_text, unsigned_of};
use crate::text::{opt_str, same};
use vstd::prelude::*;

verus! {

/// A JSON document. A number is held by its text, an object by its entries.
#[derive(Debug)]
pub enum Json {
    Null,
    Bool(bool),
    Number(String),
    Str(String),
    Array(Vec<Json>),
    Object(Vec<(String, Json)>),
}

/// What a JSON document says.
pub enum Tree {
    Null,
    Bool(bool),
    Number(Seq<char>),
    Str(Seq<char>),
    Array(Seq<Tree>),
    Object(Seq<(Seq<char>, Tree)>),
}

/// What a document says.
pub open spec fn tree(j: Json) -> Tree
    decreases j, 0nat,
{
    match j {
        Json::Null => Tree::Null,
        Json::Bool(b) => Tree::Bool(b),
        Json::Number(s) => Tree::Number(s@),
        Json::Str(s) => Tree::Str(s@),
        Json::Array(v) => Tree::Array(trees(v@)),
        Json::Object(v) => Tree::Object(entries(v@)),
    }
}

/// What the documents of a list say.
pub open spec fn trees(v: Seq<Json>) -> Seq<Tree>
    decreases v, v.len(),
{
    if v.len() == 0 {
        seq![]
    } else {
        trees(v.drop_last()).push(tree(v.last()))
    }
}

/// What the entries of an object say.
pub open spec fn entries(v: Seq<(String, Json)>) -> Seq<(Seq<char>, Tree)>
    decreases v, v.len(),
{
    if v.len() == 0 {
        seq![]
    } else {
        entries(v.drop_last()).push((v.last().0@, tree(v.last().1)))
    }
}

proof fn lemma_trees(v: Seq<Json>)
    ensures
        trees(v).len() == v.len(),
        forall|i: int| 0 <= i < v.len() ==> #[trigger] trees(v)[i] == tree(v[i]),
    decreases v.len(),
{
    if v.len() > 0 {
        lemma_trees(v.drop_last());
        let before = trees(v.drop_last());
        assert forall|i: int| 0 <= i < v.len() implies #[trigger] trees(v)[i] == tree(v[i]) by {
            if i < v.len() - 1 {
                assert(trees(v)[i] == before[i]);
                assert(v.drop_last()[i] == v[i]);
            }
        }
    }
}

proof fn lemma_entries(v: Seq<(String, Json)>)
    ensures
        entries(v).len() == v.len(),
        forall|i: int|
            0 <= i < v.len() ==> #[trigger] entries(v)[i] == (v[i].0@, tree(v[i].1)),
    decreases v.len(),
{
    if v.len() > 0 {
        lemma_entries(v.drop_last());
        let before = entries(v.drop_last());
        assert forall|i: int| 0 <= i < v.len() implies #[trigger] entries(v)[i] == (
            v[i].0@,
            tree(v[i].1),
        ) by {
            if i < v.len() - 1 {
                assert(entries(v)[i] == before[i]);
                assert(v.drop_last()[i] == v[i]);
            }
        }
    }
}

// ---------------- reading ----------------

/// A value of the `serde_json` crate.
#[verifier::external_type_specification]
#[verifier::external_body]
pub struct ExValue(serde_json::Value);

/// What a value of the `serde_json` crate says.
pub uninterp spec fn value_tree(v: serde_json::Value) -> Tree;

/// The document that a JSON text spells, or what is wrong with the text.
pub uninterp spec fn reading_of(text: Seq<char>) -> Result<Tree, Seq<char>>;

/// The document that a JSON text spells, if it is one.
pub open spec fn document_of(text: Seq<char>) -> Option<Tree> {
    match reading_of(text) {
        Ok(t) => Some(t),
        Err(_) => None,
    }
}

/// What is said of a text that is no JSON.
pub open spec fn complaint_of(text: Seq<char>) -> Seq<char> {
    match reading_of(text) {
        Ok(_) => seq![],
        Err(e) => e,
    }
}

/// A reading as a plain value.
pub open spec fn reading(r: Result<serde_json::Value, String>) -> Result<Tree, Seq<char>> {
    match r {
        Ok(v) => Ok(value_tree(v)),
        Err(e) => Err(e@),
    }
}

/// Calls `serde_json::from_str`. Whether a text is JSON, what it says and what
/// is wrong with it are functions of the text.
#[verifier::external_body]
pub(crate) fn parse_value(text: &str) -> (r: Result<serde_json::Value, String>)
    ensures
        reading(r) == reading_of(text@),
{
    serde_json::from_str::<serde_json::Value>(text).map_err(|e| e.to_string())
}

/// Takes a `serde_json::Value` apart: each of its variants becomes the one of
/// the same name, a number its text by `Number::to_string`.
#[verifier::external_body]
pub(crate) fn value_json(v: &serde_json::Value) -> (r: Json)
    ensures
        tree(r) == value_tree(*v),
{
    match v {
        serde_json::Value::Null => Json::Null,
        serde_json::Value::Bool(b) => Json::Bool(*b),
        serde_json::Value::Number(n) => Json::Number(n.to_string()),
        serde_json::Value::String(s) => Json::Str(s.clone()),
        serde_json::Value::Array(a) => Json::Array(a.iter().map(value_json).collect()),
        serde_json::Value::Object(m) => {
            Json::Object(m.iter().map(|(k, x)| (k.clone(), value_json(x))).collect())
        },
    }
}

/// Reads a JSON text.
pub fn parse_json(text: &str) -> (r: Result<Json, String>)
    ensures
        match r {
            Ok(j) => document_of(text@) == Some(tree(j)),
            Err(e) => document_of(text@) is None && e@ == complaint_of(text@),
        },
{
    match parse_value(text) {
        Ok(v) => Ok(value_json(&v)),
        Err(e) => Err(e),
    }
}

// ---------------- looking inside ----------------

/// The first entry from `i` on with a given key.
pub open spec fn entry_from(e: Seq<(Seq<char>, Tree)>, key: Seq<char>, i: int) -> Tree
    decreases e.len() - i,
{
    if i < 0 || i >= e.len() {
        Tree::Null
    } else if e[i].0 == key {
        e[i].1
    } else {
        entry_from(e, key, i + 1)
    }
}

/// What stands under a key; null where the document is no object or has no such
/// key.
pub open spec fn member(t: Tree, key: Seq<char>) -> Tree {
    match t {
        Tree::Object(e) => entry_from(e, key, 0),
        _ => Tree::Null,
    }
}

/// The text that a document is, if it is one.
pub open spec fn text_in_tree(t: Tree) -> Option<Seq<char>> {
    match t {
        Tree::Str(s) => Some(s),
        _ => None,
    }
}

/// The unsigned number that a document is, if it is one.
pub open spec fn u64_in_tree(t: Tree) -> Option<nat> {
    match t {
        Tree::Number(s) => unsigned_of(s, u64::MAX as nat),
        _ => None,
    }
}

/// The items of a document that is a list; none where it is not.
pub open spec fn items_in_tree(t: Tree) -> Seq<Tree> {
    match t {
        Tree::Array(v) => v,
        _ => seq![],
    }
}

impl Json {
    /// What stands under a key, as far as there is anything.
    pub fn get(&self, key: &str) -> (r: Option<&Json>)
        ensures
            match r {
                Some(j) => member(tree(*self), key@) == tree(*j),
                None => member(tree(*self), key@) is Null,
            },
    {
        match self {
            Json::Object(v) => {
                proof {
                    lemma_entries(v@);
                }
                let ghost e = entries(v@);
                let mut i: usize = 0;
                while i < v.len()
                    invariant
                        e == entries(v@),
                        e.len() == v@.len(),
                        forall|k: int|
                            0 <= k < v@.len() ==> #[trigger] e[k] == (v@[k].0@, tree(v@[k].1)),
                        i <= v@.len(),
                        entry_from(e, key@, 0) == entry_from(e, key@, i as int),
                        member(tree(*self), key@) == entry_from(e, key@, 0),
                    decreases v@.len() - i,
                {
                    assert(e[i as int].0 == v@[i as int].0@);
                    if same(v[i].0.as_str(), key) {
                        return Some(&v[i].1);
                    }
                    i += 1;
                }
                None
            },
            _ => None,
        }
    }

    /// The text that this is, if it is one.
    pub fn as_str(&self) -> (r: Option<&str>)
        ensures
            opt_str(r) == text_in_tree(tree(*self)),
    {
        match self {
            Json::Str(s) => Some(s.as_str()),
            _ => None,
        }
    }

    /// The unsigned number that this is, if it is one.
    pub fn as_u64(&self) -> (r: Option<u64>)
        ensures
            match r {
                Some(n) => u64_in_tree(tree(*self)) == Some(n as nat),
                None => u64_in_tree(tree(*self)) is None,
            },
    {
        match self {
            Json::Number(s) => parse_u64(s.as_str()),
            _ => None,
        }
    }

    /// Whether this is an object.
    pub fn is_object(&self) -> (r: bool)
        ensures
            r == (tree(*self) is Object),
    {
        match self {
            Json::Object(_) => true,
            _ => false,
        }
    }

    /// How many items this holds as a list.
    pub fn len(&self) -> (r: usize)
        ensures
            r == items_in_tree(tree(*self)).len(),
    {
        match self {
            Json::Array(v) => {
                proof {
                    lemma_trees(v@);
                }
                v.len()
            },
            _ => 0,
        }
    }

    /// An item of this as a list.
    pub fn item(&self, i: usize) -> (r: &Json)
        requires
            i < items_in_tree(tree(*self)).len(),
        ensures
            tree(*r) == items_in_tree(tree(*self))[i as int],
    {
        match self {
            Json::Array(v) => {
                proof {
                    lemma_trees(v@);
                }
                &v[i]
            },
            _ => self,
        }
    }

    /// The text under a key, if there is one.
    pub fn text_at(&self, key: &str) -> (r: Option<&str>)
        ensures
            opt_str(r) == text_in_tree(member(tree(*self), key@)),
    {
        match self.get(key) {
            Some(j) => j.as_str(),
            None => None,
        }
    }
}

proof fn lemma_entry_at(e: Seq<(Seq<char>, Tree)>, key: Seq<char>, at: int, i: int)
    requires
        0 <= at <= i <= e.len(),
        i < e.len() ==> e[i].0 == key,
        forall|j: int| at <= j < i ==> (#[trigger] e[j]).0 != key,
    ensures
        entry_from(e, key, at) == (if i < e.len() {
            e[i].1
        } else {
            Tree::Null
        }),
    decreases i - at,
{
    if at < i {
        lemma_entry_at(e, key, at + 1, i);
    }
}

/// A member of an object is what stands under its key, the first where there
/// are several; where the key is missing, or the value is no object, there is
/// none.
pub proof fn a_member_stands_under_its_key(e: Seq<(Seq<char>, Tree)>, key: Seq<char>, i: int)
    requires
        0 <= i <= e.len(),
        i < e.len() ==> e[i].0 == key,
        forall|j: int| 0 <= j < i ==> (#[trigger] e[j]).0 != key,
    ensures
        i < e.len() ==> member(Tree::Object(e), key) == e[i].1,
        i == e.len() ==> member(Tree::Object(e), key) is Null,
        member(Tree::Null, key) is Null,
{
    lemma_entry_at(e, key, 0, i);
}

/// A text is read as the text it is and a number as its value; nothing else is
/// read as either.
pub proof fn values_are_read_by_their_type(s: Seq<char>, n: u64, b: bool)
    ensures
        text_in_tree(Tree::Str(s)) == Some(s),
        text_in_tree(Tree::Bool(b)) is None && text_in_tree(Tree::Number(s)) is None,
        u64_in_tree(Tree::Number(dec(n as nat))) == Some(n as nat),
        u64_in_tree(Tree::Str(s)) is None && u64_in_tree(Tree::Bool(b)) is None,
        items_in_tree(Tree::Str(s)).len() == 0,
{
    parse_undoes_text(n);
}

} // verus!
