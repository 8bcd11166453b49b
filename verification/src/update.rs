//! Checks GitHub Releases for a newer build and vets what is installed.
//!
//! The download is verified against the `digest` GitHub reports for the
//! release asset. That digest arrives over the same TLS-authenticated API
//! response as the download URL, so no separate checksum file has to be
//! published alongside a release - and, as with the yt-dlp path, a missing
//! or mismatching digest is treated as a failure rather than waved through.

use crate::consts::VERSION;
use crate::digest::{digest_text, first_twelve, is_digest, short_hash};
use crate::json::{
    complaint_of, document_of, items_in_tree, member, parse_json, text_in_tree, tree, u64_in_tree,
    Json, Tree,
};
use crate::number::{dec, u64_text};
use crate::path::{file_name_at, path_file_name, path_with_file_name, renamed_at, route_of, Route};
use crate::pattern::digit_runs;
use crate::text::{
    lowered, one_of, same, strip_prefix, to_lowercase, trim, trim_start_of, trimmed, trimmed_start,
};
use crate::util::{parse_version, version, version_of};
use vstd::prelude::*;

verus! {

pub const API_LATEST: &'static str =
    "https://api.github.com/repos/SystemFunction/video-tool-rust/releases/latest";

pub const RELEASES_PAGE: &'static str =
    "https://github.com/SystemFunction/video-tool-rust/releases/latest";

/// Suffix of the binary the previous version was moved aside to.
pub const BACKUP_SUFFIX: &'static str = ".old";

/// How often the release query is attempted before giving up.
pub const CHECK_ATTEMPTS: u64 = 3;

#[derive(Clone, Debug)]
pub struct Release {
    /// Numeric version without the leading "v", e.g. "0.1.2".
    pub version: String,
    pub notes: String,
    pub page_url: String,
    /// None when the release has no asset for this platform.
    pub asset: Option<Asset>,
}

#[derive(Clone, Debug)]
pub struct Asset {
    pub url: String,
    pub size: u64,
    /// Lowercase hex sha-256, without the "sha256:" prefix.
    pub sha256: String,
}

/// The name of the release asset for a platform.
pub open spec fn asset_name_of(windows: bool) -> Seq<char> {
    if windows {
        "video_tool.exe"@
    } else {
        "video_tool"@
    }
}

/// Name of the release asset that carries the binary for this platform.
pub fn asset_name(windows: bool) -> (r: &'static str)
    ensures
        r@ == asset_name_of(windows),
{
    if windows {
        "video_tool.exe"
    } else {
        "video_tool"
    }
}

// ---------------- versions ----------------

/// The `i`-th number of a version; zero behind its last.
pub open spec fn number_at(v: Seq<u64>, i: int) -> u64 {
    if 0 <= i < v.len() {
        v[i]
    } else {
        0
    }
}

/// `remote` is the higher version from its `i`-th number on: by the first number
/// in which they differ.
pub open spec fn higher_from(remote: Seq<u64>, local: Seq<u64>, i: int) -> bool
    decreases remote.len() + local.len() - i,
{
    if i < 0 || (i >= remote.len() && i >= local.len()) {
        false
    } else if number_at(remote, i) != number_at(local, i) {
        number_at(remote, i) > number_at(local, i)
    } else {
        higher_from(remote, local, i + 1)
    }
}

/// `remote` is a strictly higher version than `local`.
pub open spec fn is_higher(remote: Seq<u64>, local: Seq<u64>) -> bool {
    higher_from(remote, local, 0)
}

/// Whether the numbers of a version are strictly higher than others.
pub fn higher_numbers(remote: &Vec<u64>, local: &Vec<u64>) -> (r: bool)
    ensures
        r == is_higher(remote@, local@),
{
    let mut i: usize = 0;
    while i < remote.len() || i < local.len()
        invariant
            i <= remote@.len() || i <= local@.len(),
            is_higher(remote@, local@) == higher_from(remote@, local@, i as int),
        decreases remote@.len() + local@.len() - i,
    {
        let a: u64 = if i < remote.len() {
            remote[i]
        } else {
            0
        };
        let b: u64 = if i < local.len() {
            local[i]
        } else {
            0
        };
        if a != b {
            return a > b;
        }
        i += 1;
    }
    false
}

/// True when `remote` is a strictly higher version than `local`.
pub fn is_newer(remote: &str, local: &str) -> (r: bool)
    ensures
        r == is_higher(version(remote@), version(local@)),
        vstd::utf8::is_ascii_chars(remote@) && vstd::utf8::is_ascii_chars(local@) ==> r
            == is_higher(version_of(digit_runs(remote@)), version_of(digit_runs(local@))),
{
    let a = parse_version(remote);
    let b = parse_version(local);
    higher_numbers(&a, &b)
}

// ---------------- requests that fail ----------------

/// Why a request failed.
#[derive(Clone, Debug)]
pub enum HttpFailure {
    /// The server answered with an error status.
    Status(u16),
    /// Nothing was reached; carries what the connection said.
    Transport(String),
}

/// A failure that another attempt can plausibly get past: a timeout, too many
/// requests, an error of the server, or no connection.
pub open spec fn can_pass(f: HttpFailure) -> bool {
    match f {
        HttpFailure::Status(code) => code == 408 || code == 429 || 500 <= code <= 599,
        HttpFailure::Transport(_) => true,
    }
}

/// True for failures that another attempt can plausibly get past.
///
/// GitHub's API edge nodes hand out the occasional 502/503/504 that is gone
/// again seconds later; without a retry that momentary blip surfaces to the
/// user as a hard "update check failed".
pub fn is_transient(e: &HttpFailure) -> (r: bool)
    ensures
        r == can_pass(*e),
{
    match e {
        HttpFailure::Status(code) => *code == 408 || *code == 429 || (500 <= *code && *code <= 599),
        // Timeouts, DNS hiccups, dropped connections.
        HttpFailure::Transport(_) => true,
    }
}

/// A failed request in words.
pub open spec fn described(f: HttpFailure) -> Seq<char> {
    match f {
        HttpFailure::Status(code) => "GitHub returned status "@ + dec(code as nat)
            + " - please try again later"@,
        HttpFailure::Transport(t) => "could not reach GitHub ("@ + t@ + ")"@,
    }
}

/// Short, self-explanatory rendering of a failed request, without the URL,
/// which would only repeat what stands before it.
pub fn describe(e: &HttpFailure) -> (r: String)
    ensures
        r@ == described(*e),
{
    match e {
        HttpFailure::Status(code) => {
            let mut out = "GitHub returned status ".to_owned();
            out.append(u64_text(*code as u64).as_str());
            out.append(" - please try again later");
            out
        },
        HttpFailure::Transport(t) => {
            let mut out = "could not reach GitHub (".to_owned();
            out.append(t.as_str());
            out.append(")");
            out
        },
    }
}

/// What follows a request that failed.
#[derive(Debug)]
pub enum AfterFailure {
    /// Try again after so many seconds.
    Again(u64),
    /// Report this.
    GiveUp(String),
}

/// How many seconds to wait before another try, if there is one.
pub open spec fn wait_after(attempt: nat, e: HttpFailure) -> Option<nat> {
    if can_pass(e) && attempt + 1 < CHECK_ATTEMPTS {
        Some(attempt + 1)
    } else {
        None
    }
}

/// Decides what follows the `attempt`-th request, counted from zero: transient
/// failures are tried again, waiting a second more each time.
pub fn after_failure(attempt: u64, e: &HttpFailure) -> (r: AfterFailure)
    ensures
        match r {
            AfterFailure::Again(wait) => wait_after(attempt as nat, *e) == Some(wait as nat),
            AfterFailure::GiveUp(text) => wait_after(attempt as nat, *e) is None && text@
                == described(*e),
        },
{
    if is_transient(e) && attempt < CHECK_ATTEMPTS - 1 {
        AfterFailure::Again(attempt + 1)
    } else {
        AfterFailure::GiveUp(describe(e))
    }
}

// ---------------- the latest release ----------------

/// What an asset of a release is, as far as it can be installed: without a
/// usable digest there is deliberately none, which downgrades the offer to
/// "open the release page" rather than installing something unverified.
pub struct AssetFacts {
    pub url: Seq<char>,
    pub size: nat,
    pub sha256: Seq<char>,
}

/// The digest that an asset names, in lowercase, where it is usable.
pub open spec fn digest_in(a: Tree) -> Option<Seq<char>> {
    match text_in_tree(member(a, "digest"@)) {
        Some(d) => if "sha256:"@.is_prefix_of(d) && is_digest(
            lowered(d.skip("sha256:"@.len() as int)),
        ) {
            Some(lowered(d.skip("sha256:"@.len() as int)))
        } else {
            None
        },
        None => None,
    }
}

/// The asset that an entry describes, where it can be installed.
pub open spec fn asset_in(a: Tree) -> Option<AssetFacts> {
    match (digest_in(a), text_in_tree(member(a, "browser_download_url"@))) {
        (Some(sha256), Some(url)) => Some(
            AssetFacts {
                url,
                size: match u64_in_tree(member(a, "size"@)) {
                    Some(n) => n,
                    None => 0,
                },
                sha256,
            },
        ),
        _ => None,
    }
}

/// The first entry from `i` on with a given name.
pub open spec fn named_from(assets: Seq<Tree>, name: Seq<char>, i: int) -> Option<Tree>
    decreases assets.len() - i,
{
    if i < 0 || i >= assets.len() {
        None
    } else if text_in_tree(member(assets[i], "name"@)) == Some(name) {
        Some(assets[i])
    } else {
        named_from(assets, name, i + 1)
    }
}

/// The asset of a release for a platform.
pub open spec fn asset_of(body: Tree, windows: bool) -> Option<AssetFacts> {
    match named_from(items_in_tree(member(body, "assets"@)), asset_name_of(windows), 0) {
        Some(a) => asset_in(a),
        None => None,
    }
}

/// What an optional asset is.
pub open spec fn asset_facts(a: Option<Asset>) -> Option<AssetFacts> {
    match a {
        Some(x) => Some(AssetFacts { url: x.url@, size: x.size as nat, sha256: x.sha256@ }),
        None => None,
    }
}

fn read_asset(a: &Json) -> (r: Option<Asset>)
    ensures
        asset_facts(r) == asset_in(tree(*a)),
{
    let digest = match a.text_at("digest") {
        Some(d) => match strip_prefix(d, "sha256:") {
            Some(hex) => to_lowercase(hex.as_str()),
            None => {
                return None;
            },
        },
        None => {
            return None;
        },
    };
    if !digest_text(digest.as_str()) {
        return None;
    }
    match a.text_at("browser_download_url") {
        Some(url) => {
            let size: u64 = match a.get("size") {
                Some(s) => match s.as_u64() {
                    Some(n) => n,
                    None => 0,
                },
                None => 0,
            };
            Some(Asset { url: url.to_owned(), size, sha256: digest })
        },
        None => None,
    }
}

fn find_asset(body: &Json, windows: bool) -> (r: Option<Asset>)
    ensures
        asset_facts(r) == asset_of(tree(*body), windows),
{
    let wanted = asset_name(windows);
    match body.get("assets") {
        Some(list) => {
            let ghost items = items_in_tree(tree(*list));
            let n = list.len();
            let mut i: usize = 0;
            while i < n
                invariant
                    items == items_in_tree(tree(*list)),
                    items == items_in_tree(member(tree(*body), "assets"@)),
                    n == items.len(),
                    i <= n,
                    wanted@ == asset_name_of(windows),
                    named_from(items, wanted@, 0) == named_from(items, wanted@, i as int),
                decreases n - i,
            {
                let a = list.item(i);
                if let Some(name) = a.text_at("name") {
                    if same(name, wanted) {
                        return read_asset(a);
                    }
                }
                i += 1;
            }
            None
        },
        None => None,
    }
}

/// A version without the "v" that a tag puts in front.
pub open spec fn tag_version(tag: Seq<char>) -> Seq<char> {
    trimmed_start(tag, one_of(seq!['v', 'V']))
}

/// The version that a tag names.
pub fn version_from_tag(tag: &str) -> (r: String)
    ensures
        r@ == tag_version(tag@),
{
    let set = ['v', 'V'];
    assert(set@ =~= seq!['v', 'V']);
    trim_start_of(tag, &set)
}

/// `r` is the release of a document, under a version.
pub open spec fn is_release(r: Release, body: Tree, version: Seq<char>, windows: bool) -> bool {
    &&& r.version@ == version
    &&& r.notes@ == (match text_in_tree(member(body, "body"@)) {
        Some(n) => trimmed(n),
        None => trimmed(Seq::empty()),
    })
    &&& r.page_url@ == (match text_in_tree(member(body, "html_url"@)) {
        Some(u) => u,
        None => RELEASES_PAGE@,
    })
    &&& asset_facts(r.asset) == asset_of(body, windows)
}

/// Reads the release off a document.
pub fn read_release(body: &Json, version: &str, windows: bool) -> (r: Release)
    ensures
        is_release(r, tree(*body), version@, windows),
{
    proof {
        reveal_strlit("");
        assert(""@ =~= Seq::<char>::empty());
    }
    let notes = match body.text_at("body") {
        Some(n) => trim(n),
        None => trim(""),
    };
    let page_url = match body.text_at("html_url") {
        Some(u) => u.to_owned(),
        None => RELEASES_PAGE.to_owned(),
    };
    Release { version: version.to_owned(), notes, page_url, asset: find_asset(body, windows) }
}

/// What is made of the data of a release: one with a higher version than this is
/// news.
pub open spec fn is_judged(
    r: Result<Option<Release>, String>,
    body: Tree,
    windows: bool,
) -> bool {
    match text_in_tree(member(body, "tag_name"@)) {
        None => r is Err && r->Err_0@ == "release has no tag_name"@,
        Some(tag) => {
            let newer = is_higher(version(tag_version(tag)), version(VERSION@));
            &&& r is Ok
            &&& r->Ok_0 is Some == newer
            &&& newer ==> is_release(r->Ok_0->0, body, tag_version(tag), windows)
        },
    }
}

/// Judges the latest-release document. `Ok(None)` means "nothing newer than
/// us".
pub fn judge_release(body: &Json, windows: bool) -> (r: Result<Option<Release>, String>)
    ensures
        is_judged(r, tree(*body), windows),
{
    match body.text_at("tag_name") {
        None => Err("release has no tag_name".to_owned()),
        Some(tag) => {
            let v = version_from_tag(tag);
            if !is_newer(v.as_str(), VERSION) {
                return Ok(None);
            }
            Ok(Some(read_release(body, v.as_str(), windows)))
        },
    }
}

/// Judges the text of the latest-release document.
pub fn check_latest(text: &str, windows: bool) -> (r: Result<Option<Release>, String>)
    ensures
        match document_of(text@) {
            None => r is Err && r->Err_0@ == "unexpected release data: "@ + complaint_of(text@),
            Some(body) => is_judged(r, body, windows),
        },
{
    match parse_json(text) {
        Ok(body) => judge_release(&body, windows),
        Err(e) => {
            let mut out = "unexpected release data: ".to_owned();
            out.append(e.as_str());
            Err(out)
        },
    }
}

// ---------------- what is installed ----------------

/// A download is what its asset promises: as long as the asset says, where it
/// says so, and with its digest.
pub open spec fn is_promised(asset: Asset, len: nat, digest: Seq<char>) -> bool {
    (asset.size == 0 || len == asset.size) && digest == asset.sha256@
}

/// What is said of a download that is not what its asset promises.
pub open spec fn refusal_of(asset: Asset, len: nat, digest: Seq<char>) -> Seq<char> {
    if asset.size > 0 && len != asset.size {
        "size mismatch - update discarded (expected "@ + dec(asset.size as nat) + " bytes, got "@
            + dec(len) + ")"@
    } else {
        "checksum mismatch - update discarded (expected "@ + first_twelve(asset.sha256@)
            + "..., got "@ + first_twelve(digest) + "...)"@
    }
}

/// Vets a downloaded update by its length and its digest; only one that is
/// promised is let through.
pub fn vet_update(asset: &Asset, len: u64, digest: &str) -> (r: Result<(), String>)
    ensures
        r is Ok == is_promised(*asset, len as nat, digest@),
        r is Err ==> r->Err_0@ == refusal_of(*asset, len as nat, digest@),
{
    if asset.size > 0 && len != asset.size {
        let mut out = "size mismatch - update discarded (expected ".to_owned();
        out.append(u64_text(asset.size).as_str());
        out.append(" bytes, got ");
        out.append(u64_text(len).as_str());
        out.append(")");
        return Err(out);
    }
    if !same(digest, asset.sha256.as_str()) {
        let mut out = "checksum mismatch - update discarded (expected ".to_owned();
        out.append(short_hash(asset.sha256.as_str()).as_str());
        out.append("..., got ");
        out.append(short_hash(digest).as_str());
        out.append("...)");
        return Err(out);
    }
    Ok(())
}

/// A file name with a suffix behind it; the suffix alone where there is none.
pub open spec fn suffixed_name(path: Seq<char>, suffix: Seq<char>, windows: bool) -> Seq<char> {
    match file_name_at(path, windows) {
        Some(n) => n + suffix,
        None => suffix,
    }
}

/// `r` is a path with a suffix behind its file name.
pub open spec fn is_suffixed(r: Route, path: Route, suffix: Seq<char>) -> bool {
    &&& r.windows == path.windows
    &&& r.text == renamed_at(
        path.text,
        suffixed_name(path.text, suffix, path.windows),
        path.windows,
    )
}

/// A path with a suffix behind its file name.
pub fn with_suffix(path: &std::path::PathBuf, suffix: &str) -> (r: std::path::PathBuf)
    ensures
        is_suffixed(route_of(r), route_of(*path), suffix@),
{
    let mut name = match path_file_name(path) {
        Some(n) => n,
        None => String::new(),
    };
    name.append(suffix);
    assert(name@ =~= suffixed_name(route_of(*path).text, suffix@, route_of(*path).windows));
    path_with_file_name(path, name.as_str())
}

// ---------------- laws ----------------

proof fn lemma_higher(a: Seq<u64>, b: Seq<u64>, i: int)
    requires
        0 <= i,
    ensures
        !(higher_from(a, b, i) && higher_from(b, a, i)),
    decreases a.len() + b.len() - i,
{
    if i < a.len() || i < b.len() {
        if number_at(a, i) == number_at(b, i) {
            lemma_higher(a, b, i + 1);
        }
    }
}

proof fn lemma_higher_chain(a: Seq<u64>, b: Seq<u64>, c: Seq<u64>, i: int)
    requires
        0 <= i,
        higher_from(a, b, i),
        higher_from(b, c, i),
    ensures
        higher_from(a, c, i),
    decreases a.len() + b.len() + c.len() - i,
{
    if number_at(a, i) == number_at(b, i) && number_at(b, i) == number_at(c, i) {
        lemma_higher_chain(a, b, c, i + 1);
    }
}

/// Being newer is a strict order: no version is newer than itself, of two one
/// at most is newer, and what is newer than a newer one is newer.
pub proof fn being_newer_is_a_strict_order(a: Seq<u64>, b: Seq<u64>, c: Seq<u64>)
    ensures
        !is_higher(a, a),
        !(is_higher(a, b) && is_higher(b, a)),
        is_higher(a, b) && is_higher(b, c) ==> is_higher(a, c),
{
    lemma_higher(a, a, 0);
    lemma_higher(a, b, 0);
    if is_higher(a, b) && is_higher(b, c) {
        lemma_higher_chain(a, b, c, 0);
    }
}

proof fn lemma_padding(v: Seq<u64>, i: int)
    requires
        0 <= i,
    ensures
        !higher_from(v.push(0), v, i),
        !higher_from(v, v.push(0), i),
    decreases v.len() + v.len() + 1 - i,
{
    if i < v.len() {
        assert(v.push(0)[i] == v[i]);
        lemma_padding(v, i + 1);
    } else if i == v.len() {
        lemma_padding(v, i + 1);
    }
}

/// A zero behind the last number makes no version newer or older.
pub proof fn a_trailing_zero_is_no_news(v: Seq<u64>)
    ensures
        !is_higher(v.push(0), v),
        !is_higher(v, v.push(0)),
{
    lemma_padding(v, 0);
}

/// What can be installed has a digest to be checked against; an entry without a
/// usable one offers nothing to install.
pub proof fn nothing_is_offered_unverified(body: Tree, windows: bool)
    ensures
        asset_of(body, windows) is Some ==> is_digest(asset_of(body, windows)->0.sha256),
{
}

/// A download that differs from the promised digest is never let through, nor
/// one of another length than the one that is told.
pub proof fn a_wrong_download_is_refused(asset: Asset, len: nat, digest: Seq<char>)
    ensures
        digest != asset.sha256@ ==> !is_promised(asset, len, digest),
        asset.size > 0 && len != asset.size ==> !is_promised(asset, len, digest),
{
}

/// The `i`-th number of a version, zero behind its last.
pub open spec fn zero_padded(v: Seq<u64>, i: int) -> int {
    if 0 <= i < v.len() {
        v[i] as int
    } else {
        0
    }
}

proof fn lemma_decided(a: Seq<u64>, b: Seq<u64>, i: int, at: int)
    requires
        0 <= at <= i,
        forall|j: int| at <= j < i ==> #[trigger] zero_padded(a, j) == zero_padded(b, j),
        zero_padded(a, i) > zero_padded(b, i),
    ensures
        higher_from(a, b, at),
        !higher_from(b, a, at),
    decreases i - at,
{
    if at < i {
        assert(zero_padded(a, at) == zero_padded(b, at));
        lemma_decided(a, b, i, at + 1);
    }
}

/// The first number in which two versions differ decides, as a whole number:
/// the one with the larger is higher, and the other is not.
pub proof fn the_first_difference_decides(a: Seq<u64>, b: Seq<u64>, i: int)
    requires
        0 <= i,
        forall|j: int| 0 <= j < i ==> #[trigger] zero_padded(a, j) == zero_padded(b, j),
        zero_padded(a, i) > zero_padded(b, i),
    ensures
        is_higher(a, b),
        !is_higher(b, a),
{
    lemma_decided(a, b, i, 0);
}

proof fn lemma_differs_first(a: Seq<u64>, b: Seq<u64>, at: int, i: int) -> (k: int)
    requires
        0 <= at <= i,
        forall|j: int| 0 <= j < at ==> #[trigger] zero_padded(a, j) == zero_padded(b, j),
        zero_padded(a, i) != zero_padded(b, i),
    ensures
        0 <= k <= i,
        forall|j: int| 0 <= j < k ==> #[trigger] zero_padded(a, j) == zero_padded(b, j),
        zero_padded(a, k) != zero_padded(b, k),
    decreases i - at,
{
    if zero_padded(a, at) != zero_padded(b, at) {
        at
    } else {
        lemma_differs_first(a, b, at + 1, i)
    }
}

/// Of two versions that differ in some number exactly one is higher; of two that
/// differ in none, neither is.
pub proof fn different_versions_are_told_apart(a: Seq<u64>, b: Seq<u64>)
    ensures
        (exists|i: int| 0 <= i && #[trigger] zero_padded(a, i) != zero_padded(b, i)) <==> (
        is_higher(a, b) != is_higher(b, a)),
        !(is_higher(a, b) && is_higher(b, a)),
{
    lemma_higher(a, b, 0);
    if exists|i: int| 0 <= i && #[trigger] zero_padded(a, i) != zero_padded(b, i) {
        let i = choose|i: int| 0 <= i && #[trigger] zero_padded(a, i) != zero_padded(b, i);
        let k = lemma_differs_first(a, b, 0, i);
        if zero_padded(a, k) > zero_padded(b, k) {
            lemma_decided(a, b, k, 0);
        } else {
            assert forall|j: int| 0 <= j < k implies #[trigger] zero_padded(b, j) == zero_padded(
                a,
                j,
            ) by {
                assert(zero_padded(a, j) == zero_padded(b, j));
            }
            lemma_decided(b, a, k, 0);
        }
    } else {
        lemma_none_higher(a, b, 0);
        lemma_none_higher(b, a, 0);
    }
}

proof fn lemma_none_higher(a: Seq<u64>, b: Seq<u64>, at: int)
    requires
        0 <= at,
        forall|j: int| 0 <= j ==> #[trigger] zero_padded(a, j) == zero_padded(b, j),
    ensures
        !higher_from(a, b, at),
    decreases a.len() + b.len() - at,
{
    if at < a.len() || at < b.len() {
        assert(zero_padded(a, at) == zero_padded(b, at));
        lemma_none_higher(a, b, at + 1);
    }
}

/// A failure of the server, a timeout, too many requests and a lost connection
/// are tried again; what the request itself is blamed for is not.
pub proof fn only_passing_failures_are_retried(code: u16, text: String)
    ensures
        500 <= code < 600 ==> can_pass(HttpFailure::Status(code)),
        code == 408 || code == 429 ==> can_pass(HttpFailure::Status(code)),
        code < 500 && code != 408 && code != 429 ==> !can_pass(HttpFailure::Status(code)),
        code >= 600 ==> !can_pass(HttpFailure::Status(code)),
        can_pass(HttpFailure::Transport(text)),
{
}

/// A tag names its version with or without a "v" in front.
pub proof fn a_tag_names_its_version(v: Seq<char>)
    requires
        v.len() > 0,
        v[0] != 'v' && v[0] != 'V',
    ensures
        tag_version(v) == v,
        tag_version(seq!['v'] + v) == v,
        tag_version(seq!['V'] + v) == v,
{
    let drop = one_of(seq!['v', 'V']);
    assert(seq!['v', 'V'][0] == 'v' && seq!['v', 'V'][1] == 'V');
    assert(!drop(v[0]));
    assert(drop('v') && drop('V'));
    assert(trimmed_start(v, drop) == v);
    assert((seq!['v'] + v)[0] == 'v' && (seq!['V'] + v)[0] == 'V');
    assert((seq!['v'] + v).skip(1) =~= v);
    assert((seq!['V'] + v).skip(1) =~= v);
}

/// The asset that is offered is the entry under the name of the program for the
/// platform, with the URL, the length and the digest that this entry gives.
pub proof fn the_asset_is_the_one_for_the_platform(
    body: Tree,
    windows: bool,
    i: int,
    url: Seq<char>,
    hex: Seq<char>,
)
    requires
        ({
            let items = items_in_tree(member(body, "assets"@));
            let name = if windows {
                "video_tool.exe"@
            } else {
                "video_tool"@
            };
            &&& 0 <= i < items.len()
            &&& text_in_tree(member(items[i], "name"@)) == Some(name)
            &&& forall|j: int|
                0 <= j < i ==> text_in_tree(member(#[trigger] items[j], "name"@)) != Some(name)
            &&& text_in_tree(member(items[i], "browser_download_url"@)) == Some(url)
            &&& text_in_tree(member(items[i], "digest"@)) == Some("sha256:"@ + hex)
            &&& is_digest(lowered(hex))
        }),
    ensures
        ({
            let item = items_in_tree(member(body, "assets"@))[i];
            &&& asset_of(body, windows) is Some
            &&& asset_of(body, windows)->0.url == url
            &&& asset_of(body, windows)->0.sha256 == lowered(hex)
            &&& u64_in_tree(member(item, "size"@)) is Some ==> asset_of(body, windows)->0.size
                == u64_in_tree(member(item, "size"@))->0
        }),
{
    let items = items_in_tree(member(body, "assets"@));
    lemma_named(items, asset_name_of(windows), 0, i);
    let d = "sha256:"@ + hex;
    assert(d.subrange(0, "sha256:"@.len() as int) =~= "sha256:"@);
    assert(d.skip("sha256:"@.len() as int) =~= hex);
}

proof fn lemma_named(items: Seq<Tree>, name: Seq<char>, at: int, i: int)
    requires
        0 <= at <= i < items.len(),
        text_in_tree(member(items[i], "name"@)) == Some(name),
        forall|j: int|
            at <= j < i ==> text_in_tree(member(#[trigger] items[j], "name"@)) != Some(name),
    ensures
        named_from(items, name, at) == Some(items[i]),
    decreases i - at,
{
    if at < i {
        assert(text_in_tree(member(items[at], "name"@)) != Some(name));
        lemma_named(items, name, at + 1, i);
    }
}

/// A download that is as long as its asset says and has its digest is let
/// through; where the asset gives no length, the digest alone decides.
pub proof fn a_right_download_is_let_through(asset: Asset, len: nat, digest: Seq<char>)
    requires
        digest == asset.sha256@,
        len == asset.size || asset.size == 0,
    ensures
        is_promised(asset, len, digest),
{
}

/// A release is news exactly when its tag names a higher version than this one;
/// one without a tag is refused.
pub proof fn a_higher_tag_is_news(
    r: Result<Option<Release>, String>,
    body: Tree,
    windows: bool,
)
    requires
        is_judged(r, body, windows),
    ensures
        text_in_tree(member(body, "tag_name"@)) is None ==> r is Err && r->Err_0@
            == "release has no tag_name"@,
        text_in_tree(member(body, "tag_name"@)) matches Some(tag) ==> {
            let newer = is_higher(version(tag_version(tag)), version("0.2.0"@));
            &&& newer ==> r is Ok && r->Ok_0 is Some && r->Ok_0->0.version@ == tag_version(tag)
            &&& !newer ==> r is Ok && r->Ok_0 is None
        },
{
}

/// A release carries its notes and its page; where it names no page, it is the
/// one of the latest release.
pub proof fn a_release_carries_its_notes(r: Release, body: Tree, version: Seq<char>, windows: bool)
    requires
        is_release(r, body, version, windows),
    ensures
        r.version@ == version,
        asset_facts(r.asset) == asset_of(body, windows),
        text_in_tree(member(body, "body"@)) matches Some(n) ==> r.notes@ == trimmed(n),
        text_in_tree(member(body, "html_url"@)) matches Some(u) ==> r.page_url@ == u,
        text_in_tree(member(body, "html_url"@)) is None ==> r.page_url@
            == "https://github.com/SystemFunction/video-tool-rust/releases/latest"@,
{
}

/// Why an update is turned down is told with what was expected and what came.
pub proof fn a_refusal_tells_what_came(asset: Asset, len: nat, digest: Seq<char>)
    ensures
        asset.size > 0 && len != asset.size ==> refusal_of(asset, len, digest)
            == "size mismatch - update discarded (expected "@ + dec(asset.size as nat)
            + " bytes, got "@ + dec(len) + ")"@,
        asset.size == 0 || len == asset.size ==> refusal_of(asset, len, digest)
            == "checksum mismatch - update discarded (expected "@ + first_twelve(asset.sha256@)
            + "..., got "@ + first_twelve(digest) + "...)"@,
{
}

/// A failure is told with the status of the server, or with why it was not
/// reached. Releases are asked for where they are published.
pub proof fn a_failure_is_told_with_its_reason(code: u16, text: String)
    ensures
        described(HttpFailure::Status(code)) == "GitHub returned status "@ + dec(code as nat)
            + " - please try again later"@,
        described(HttpFailure::Transport(text)) == "could not reach GitHub ("@ + text@ + ")"@,
        API_LATEST@
            == "https://api.github.com/repos/SystemFunction/video-tool-rust/releases/latest"@,
        BACKUP_SUFFIX@ == ".old"@,
{
}

/// A check that failed for a passing reason is tried again after one second and
/// after two, and then given up.
pub proof fn a_failed_check_is_tried_twice_more(e: HttpFailure)
    ensures
        can_pass(e) ==> wait_after(0, e) == Some(1nat) && wait_after(1, e) == Some(2nat)
            && wait_after(2, e) is None,
        !can_pass(e) ==> wait_after(0, e) is None,
{
}

/// A suffix stands behind the whole name of a file.
pub proof fn a_suffix_stands_behind_the_name(
    path: Seq<char>,
    n: Seq<char>,
    suffix: Seq<char>,
    windows: bool,
)
    requires
        file_name_at(path, windows) == Some(n),
    ensures
        suffixed_name(path, suffix, windows) == n + suffix,
{
}

/// A file with a suffix stands beside the one it is made for, on the same
/// system.
pub proof fn a_suffixed_file_stands_beside(r: Route, path: Route, suffix: Seq<char>, n: Seq<char>)
    requires
        is_suffixed(r, path, suffix),
        file_name_at(path.text, path.windows) == Some(n),
    ensures
        r.windows == path.windows,
        r.text == renamed_at(path.text, n + suffix, path.windows),
{
}

} // verus!
