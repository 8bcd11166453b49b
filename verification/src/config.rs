//! JSON-backed settings store.
//!
//! Setters only mark the store dirty; the actual write is coalesced by
//! `flush`. Text fields report a change on every keystroke, and rewriting
//! plus renaming the whole file that often is both wasteful and a needless
//! window for a torn config.

use crate::json::{document_of, entry_from, parse_value, value_json, value_tree, Json, Tree};
use crate::path::{
    extended_at, joins, lemma_is_plain, path_below, path_of, path_text, path_with_extension,
    route_of,
};
use crate::text::{is_digit, same};
use vstd::prelude::*;

verus! {

/// Shortest gap between two unforced writes, in milliseconds.
pub const FLUSH_INTERVAL: u64 = 1500;

pub const CONFIG_FILE: &'static str = "config.json";

pub const TMP_EXT: &'static str = "json.tmp";

// ---------------- the map of settings ----------------

/// The map of the `serde_json` crate.
#[verifier::external_type_specification]
#[verifier::external_body]
#[verifier::reject_recursive_types(K)]
#[verifier::reject_recursive_types(V)]
pub struct ExJsonMap<K, V>(serde_json::Map<K, V>);

/// What a map of the `serde_json` crate holds under its keys.
pub uninterp spec fn settings_of(
    m: serde_json::Map<String, serde_json::Value>,
) -> Map<Seq<char>, Tree>;

/// The text that settings are written as.
pub uninterp spec fn written(s: Map<Seq<char>, Tree>) -> Seq<char>;

/// Calls `serde_json::Map::new`, which gives an empty map.
#[verifier::external_body]
fn map_new() -> (r: serde_json::Map<String, serde_json::Value>)
    ensures
        settings_of(r) == no_settings(),
{
    serde_json::Map::new()
}

/// Calls `serde_json::Map::get`, which finds what stands under a key.
#[verifier::external_body]
fn map_get<'a>(m: &'a serde_json::Map<String, serde_json::Value>, key: &str) -> (r: Option<
    &'a serde_json::Value,
>)
    ensures
        match r {
            Some(v) => settings_of(*m).contains_key(key@) && settings_of(*m)[key@] == value_tree(*v),
            None => !settings_of(*m).contains_key(key@),
        },
{
    m.get(key)
}

/// Calls `serde_json::Map::insert`, which puts a value under a key in place of
/// the one that stood there.
#[verifier::external_body]
fn map_insert(
    m: &mut serde_json::Map<String, serde_json::Value>,
    key: &str,
    value: serde_json::Value,
)
    ensures
        settings_of(*final(m)) == settings_of(*old(m)).insert(key@, value_tree(value)),
{
    m.insert(key.to_string(), value);
}

/// Calls `serde_json::Value::from` on a text, which gives that text as a value.
#[verifier::external_body]
fn text_value(s: &str) -> (r: serde_json::Value)
    ensures
        value_tree(r) == Tree::Str(s@),
{
    serde_json::Value::from(s)
}

/// Calls `serde_json::Value::from` on a flag, which gives that flag as a value.
#[verifier::external_body]
fn flag_value(b: bool) -> (r: serde_json::Value)
    ensures
        value_tree(r) == Tree::Bool(b),
{
    serde_json::Value::from(b)
}

/// Takes the map out of a `serde_json::Value::Object`: it holds the entries of
/// the object, no key twice. Other variants have none.
#[verifier::external_body]
fn object_map(v: serde_json::Value) -> (r: Option<serde_json::Map<String, serde_json::Value>>)
    ensures
        match r {
            Some(m) => value_tree(v) is Object && settings_of(m) == object_settings(value_tree(v)),
            None => !(value_tree(v) is Object),
        },
{
    match v {
        serde_json::Value::Object(m) => Some(m),
        _ => None,
    }
}

/// Calls `serde_json::to_string_pretty`, which cannot fail on a map from texts
/// to values. The text is a function of what the map holds; it is JSON, and
/// says the same again, where every value is one that lasts.
#[verifier::external_body]
fn map_text(m: &serde_json::Map<String, serde_json::Value>) -> (r: Option<String>)
    ensures
        r is Some,
        r->0@ == written(settings_of(*m)),
        all_last(settings_of(*m)) ==> document_of(r->0@) is Some && document_of(r->0@)->0 is Object
            && object_settings(document_of(r->0@)->0) == settings_of(*m),
{
    serde_json::to_string_pretty(m).ok()
}

/// No setting at all.
pub open spec fn no_settings() -> Map<Seq<char>, Tree> {
    Map::empty()
}

/// The key occurs among some entries from `i` on.
pub open spec fn occurs_from(e: Seq<(Seq<char>, Tree)>, key: Seq<char>, i: int) -> bool {
    exists|k: int| i <= k < e.len() && #[trigger] e[k].0 == key
}

/// What an object holds under its keys; nothing where a document is none.
pub open spec fn object_settings(t: Tree) -> Map<Seq<char>, Tree> {
    match t {
        Tree::Object(e) => Map::new(
            |k: Seq<char>| occurs_from(e, k, 0),
            |k: Seq<char>| entry_from(e, k, 0),
        ),
        _ => no_settings(),
    }
}

/// The text of a whole number.
pub open spec fn is_whole(s: Seq<char>) -> bool {
    &&& s.len() > 0
    &&& is_digit(s.last())
    &&& forall|i: int| 0 <= i < s.len() ==> is_digit(#[trigger] s[i]) || (i == 0 && s[i] == '-')
}

/// A value comes back unchanged when it is written and read: a fraction may not,
/// nor what is nested too deep.
pub open spec fn lasts(t: Tree, depth: nat) -> bool
    decreases depth,
{
    match t {
        Tree::Null => true,
        Tree::Bool(_) => true,
        Tree::Str(_) => true,
        Tree::Number(s) => is_whole(s),
        Tree::Array(v) => depth > 0 && forall|i: int|
            0 <= i < v.len() ==> lasts(#[trigger] v[i], (depth - 1) as nat),
        Tree::Object(e) => depth > 0 && forall|i: int|
            0 <= i < e.len() ==> lasts((#[trigger] e[i]).1, (depth - 1) as nat),
    }
}

/// How deep the values of settings may be nested.
pub open spec fn max_depth() -> nat {
    100
}

/// Every setting comes back unchanged when it is written and read.
pub open spec fn all_last(s: Map<Seq<char>, Tree>) -> bool {
    forall|k: Seq<char>| s.contains_key(k) ==> lasts(#[trigger] s[k], max_depth())
}

// ---------------- the store ----------------

/// The settings, and what is known of their file.
pub struct Config {
    file: String,
    data: serde_json::Map<String, serde_json::Value>,
    dirty: bool,
    last_write: u64,
}

/// The settings that the text of a file holds; none where it is no object.
pub open spec fn settings_in(text: Option<Seq<char>>) -> Map<Seq<char>, Tree> {
    match text {
        Some(s) => match document_of(s) {
            Some(t) => object_settings(t),
            None => no_settings(),
        },
        None => no_settings(),
    }
}

/// The text under a key, or a default where there is none.
pub open spec fn text_setting(s: Map<Seq<char>, Tree>, key: Seq<char>, default: Seq<char>) -> Seq<
    char,
> {
    if s.contains_key(key) && s[key] is Str {
        s[key]->Str_0
    } else {
        default
    }
}

/// The flag under a key, or a default where there is none.
pub open spec fn flag_setting(s: Map<Seq<char>, Tree>, key: Seq<char>, default: bool) -> bool {
    if s.contains_key(key) && s[key] is Bool {
        s[key]->Bool_0
    } else {
        default
    }
}

/// A key holds just this value.
pub open spec fn is_set(s: Map<Seq<char>, Tree>, key: Seq<char>, value: Tree) -> bool {
    s.contains_key(key) && s[key] == value
}

/// Whether so many milliseconds went by between two moments, on a clock that
/// may not run backwards.
pub open spec fn elapsed(from: u64, to: u64) -> nat {
    if to >= from {
        (to - from) as nat
    } else {
        0
    }
}

/// `r` is the file that the settings of another are written to first: the same
/// with an extension of its own.
pub open spec fn is_tmp_file(r: Seq<char>, file: Seq<char>, windows: bool) -> bool {
    r == extended_at(file, TMP_EXT@, windows)
}

impl Config {
    /// The settings by their keys.
    pub closed spec fn settings(&self) -> Map<Seq<char>, Tree> {
        settings_of(self.data)
    }

    /// Something was changed and not written yet.
    pub closed spec fn dirty(&self) -> bool {
        self.dirty
    }

    /// When the settings were last written or read, in milliseconds.
    pub closed spec fn last_write(&self) -> u64 {
        self.last_write
    }

    /// The file of the settings.
    pub closed spec fn path(&self) -> Seq<char> {
        self.file@
    }

    /// A write is due.
    pub open spec fn due(&self, force: bool, now: u64) -> bool {
        self.dirty() && (force || elapsed(self.last_write(), now) >= FLUSH_INTERVAL)
    }

    /// The settings from the text of their file in a directory; `text` is none
    /// where the file could not be read.
    pub fn load(app_dir: &str, text: Option<&str>, now: u64) -> (r: Config)
        ensures
            joins(r.path(), app_dir@, CONFIG_FILE@),
            r.settings() == settings_in(
                match text {
                    Some(s) => Some(s@),
                    None => None,
                },
            ),
            !r.dirty(),
            r.last_write() == now,
    {
        proof {
            reveal_strlit("config.json");
            lemma_is_plain(CONFIG_FILE@);
        }
        let file = path_below(app_dir, CONFIG_FILE);
        let data = match text {
            Some(s) => match parse_value(s) {
                Ok(v) => match object_map(v) {
                    Some(m) => m,
                    None => map_new(),
                },
                Err(_) => map_new(),
            },
            None => map_new(),
        };
        Config { file, data, dirty: false, last_write: now }
    }

    /// The file of the settings.
    pub fn file(&self) -> (r: &str)
        ensures
            r@ == self.path(),
    {
        self.file.as_str()
    }

    /// The file that the settings are written to before it takes the place of
    /// the old one.
    pub fn tmp_file(&self) -> (r: String)
        ensures
            exists|windows: bool| is_tmp_file(r@, self.path(), windows),
    {
        proof {
            reveal_strlit("json.tmp");
            lemma_is_plain(TMP_EXT@);
        }
        let p = path_of(self.file.as_str());
        let r = path_text(&path_with_extension(&p, TMP_EXT));
        assert(is_tmp_file(r@, self.path(), route_of(p).windows));
        r
    }

    /// The text to write, if there are pending changes. `force` ignores the
    /// coalescing interval and is what shutdown and pre-run paths use so
    /// nothing is lost.
    ///
    /// Whoever reads the text again finds the same settings, as far as their
    /// values last.
    pub fn flush(&mut self, force: bool, now: u64) -> (r: Option<String>)
        ensures
            r is Some == old(self).due(force, now),
            r is Some ==> r->0@ == written(old(self).settings()),
            r is Some && all_last(old(self).settings()) ==> settings_in(Some(r->0@)) == old(
                self,
            ).settings(),
            final(self).settings() == old(self).settings(),
            final(self).path() == old(self).path(),
            final(self).dirty() == (old(self).dirty() && !old(self).due(force, now)),
            final(self).last_write() == (if old(self).due(force, now) {
                now
            } else {
                old(self).last_write()
            }),
    {
        let waited: u64 = if now >= self.last_write {
            now - self.last_write
        } else {
            0
        };
        if !self.dirty || (!force && waited < FLUSH_INTERVAL) {
            return None;
        }
        self.last_write = now;
        self.dirty = false;
        map_text(&self.data)
    }

    /// The text under a key, or a default where there is none.
    pub fn get_str(&self, key: &str, default: &str) -> (r: String)
        ensures
            r@ == text_setting(self.settings(), key@, default@),
    {
        match map_get(&self.data, key) {
            Some(v) => match value_json(v) {
                Json::Str(s) => s,
                _ => default.to_owned(),
            },
            None => default.to_owned(),
        }
    }

    /// The flag under a key, or a default where there is none.
    pub fn get_bool(&self, key: &str, default: bool) -> (r: bool)
        ensures
            r == flag_setting(self.settings(), key@, default),
    {
        match map_get(&self.data, key) {
            Some(v) => match value_json(v) {
                Json::Bool(b) => b,
                _ => default,
            },
            None => default,
        }
    }

    /// The value under a key.
    pub fn get_value(&self, key: &str) -> (r: Option<&serde_json::Value>)
        ensures
            match r {
                Some(v) => is_set(self.settings(), key@, value_tree(*v)),
                None => !self.settings().contains_key(key@),
            },
    {
        map_get(&self.data, key)
    }

    /// Puts a text under a key. Nothing is pending where it stood there.
    pub fn set_str(&mut self, key: &str, value: &str)
        ensures
            final(self).settings() == old(self).settings().insert(key@, Tree::Str(value@)),
            final(self).dirty() == (old(self).dirty() || !is_set(
                old(self).settings(),
                key@,
                Tree::Str(value@),
            )),
            final(self).last_write() == old(self).last_write(),
            final(self).path() == old(self).path(),
    {
        if let Some(v) = map_get(&self.data, key) {
            if let Json::Str(s) = value_json(v) {
                if same(s.as_str(), value) {
                    assert(self.settings() =~= self.settings().insert(key@, Tree::Str(value@)));
                    return ;
                }
            }
        }
        map_insert(&mut self.data, key, text_value(value));
        self.dirty = true;
    }

    /// Puts a flag under a key. Nothing is pending where it stood there.
    pub fn set_bool(&mut self, key: &str, value: bool)
        ensures
            final(self).settings() == old(self).settings().insert(key@, Tree::Bool(value)),
            final(self).dirty() == (old(self).dirty() || !is_set(
                old(self).settings(),
                key@,
                Tree::Bool(value),
            )),
            final(self).last_write() == old(self).last_write(),
            final(self).path() == old(self).path(),
    {
        if let Some(v) = map_get(&self.data, key) {
            if let Json::Bool(b) = value_json(v) {
                if b == value {
                    assert(self.settings() =~= self.settings().insert(key@, Tree::Bool(value)));
                    return ;
                }
            }
        }
        map_insert(&mut self.data, key, flag_value(value));
        self.dirty = true;
    }

    /// Puts a value under a key.
    pub fn set_value(&mut self, key: &str, value: serde_json::Value)
        ensures
            final(self).settings() == old(self).settings().insert(key@, value_tree(value)),
            final(self).dirty(),
            final(self).last_write() == old(self).last_write(),
            final(self).path() == old(self).path(),
    {
        map_insert(&mut self.data, key, value);
        self.dirty = true;
    }
}

// ---------------- laws ----------------

/// What was put under a key is read there, whatever the default, and what
/// stands under every other key stays.
pub proof fn a_setting_reads_back(
    s: Map<Seq<char>, Tree>,
    key: Seq<char>,
    text: Seq<char>,
    flag: bool,
    other: Seq<char>,
    default: Seq<char>,
    otherwise: bool,
)
    ensures
        text_setting(s.insert(key, Tree::Str(text)), key, default) == text,
        flag_setting(s.insert(key, Tree::Bool(flag)), key, otherwise) == flag,
        other != key ==> text_setting(s.insert(key, Tree::Str(text)), other, default)
            == text_setting(s, other, default),
        other != key ==> text_setting(s.insert(key, Tree::Bool(flag)), other, default)
            == text_setting(s, other, default),
        other != key ==> flag_setting(s.insert(key, Tree::Str(text)), other, otherwise)
            == flag_setting(s, other, otherwise),
        other != key ==> flag_setting(s.insert(key, Tree::Bool(flag)), other, otherwise)
            == flag_setting(s, other, otherwise),
{
}

/// Texts and flags last: settings that last still do when one of either is
/// added.
pub proof fn texts_and_flags_last(
    s: Map<Seq<char>, Tree>,
    key: Seq<char>,
    text: Seq<char>,
    flag: bool,
)
    requires
        all_last(s),
    ensures
        all_last(s.insert(key, Tree::Str(text))),
        all_last(s.insert(key, Tree::Bool(flag))),
        all_last(no_settings()),
{
    assert forall|k: Seq<char>|
        s.insert(key, Tree::Str(text)).contains_key(k) implies lasts(
        #[trigger] s.insert(key, Tree::Str(text))[k],
        max_depth(),
    ) by {
        if k != key {
            assert(s.contains_key(k));
            assert(lasts(s[k], max_depth()));
        }
    }
    assert forall|k: Seq<char>|
        s.insert(key, Tree::Bool(flag)).contains_key(k) implies lasts(
        #[trigger] s.insert(key, Tree::Bool(flag))[k],
        max_depth(),
    ) by {
        if k != key {
            assert(s.contains_key(k));
            assert(lasts(s[k], max_depth()));
        }
    }
}

/// Changed settings are written at once on demand, else as soon as a second and
/// a half has passed since the last time; unchanged ones are not written.
pub proof fn changes_are_written_in_time(c: Config, force: bool, now: u64)
    ensures
        !c.dirty() ==> !c.due(force, now),
        c.dirty() && force ==> c.due(force, now),
        c.dirty() && now >= c.last_write() + 1500 ==> c.due(force, now),
        !force && now < c.last_write() + 1500 ==> !c.due(force, now),
{
}

proof fn lemma_entry_at(e: Seq<(Seq<char>, Tree)>, key: Seq<char>, at: int, i: int)
    requires
        0 <= at <= i < e.len(),
        e[i].0 == key,
        forall|j: int| at <= j < i ==> (#[trigger] e[j]).0 != key,
    ensures
        entry_from(e, key, at) == e[i].1,
    decreases i - at,
{
    if at < i {
        lemma_entry_at(e, key, at + 1, i);
    }
}

/// The settings are what stands under the keys of the stored object; anything
/// else than an object holds none.
pub proof fn settings_are_those_of_the_object(e: Seq<(Seq<char>, Tree)>, key: Seq<char>, i: int)
    requires
        0 <= i < e.len(),
        e[i].0 == key,
        forall|j: int| 0 <= j < i ==> (#[trigger] e[j]).0 != key,
    ensures
        object_settings(Tree::Object(e)).contains_key(key),
        object_settings(Tree::Object(e))[key] == e[i].1,
        settings_in(None) == Map::<Seq<char>, Tree>::empty(),
        object_settings(Tree::Null) == Map::<Seq<char>, Tree>::empty(),
        object_settings(Tree::Array(seq![])) == Map::<Seq<char>, Tree>::empty(),
{
    lemma_entry_at(e, key, 0, i);
    assert(e[i].0 == key);
    assert(occurs_from(e, key, 0));
}

/// A setting that is missing, or is of another type, has its default.
pub proof fn a_missing_setting_has_its_default(
    s: Map<Seq<char>, Tree>,
    key: Seq<char>,
    text: Seq<char>,
    flag: bool,
)
    requires
        !s.contains_key(key),
    ensures
        text_setting(s, key, text) == text,
        flag_setting(s, key, flag) == flag,
        text_setting(s.insert(key, Tree::Bool(flag)), key, text) == text,
        flag_setting(s.insert(key, Tree::Str(text)), key, flag) == flag,
{
}

/// The settings stand in `config.json`, and are written by way of
/// `config.json.tmp`.
pub proof fn settings_have_their_file()
    ensures
        CONFIG_FILE@ == "config.json"@,
        TMP_EXT@ == "json.tmp"@,
{
}

/// A setting is there once it was written, with the value it was written with
/// and no other.
pub proof fn a_written_setting_is_there(
    s: Map<Seq<char>, Tree>,
    key: Seq<char>,
    value: Tree,
    other: Tree,
)
    ensures
        is_set(s.insert(key, value), key, value),
        other != value ==> !is_set(s.insert(key, value), key, other),
        !s.contains_key(key) ==> !is_set(s, key, value),
{
}

} // verus!
