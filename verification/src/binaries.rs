//! The tool's own copies of yt-dlp, ffmpeg/ffprobe and Deno: where they are,
//! what they say of themselves, where they come from and when they are let in.
//!
//! Downloads go over HTTPS only, and a yt-dlp binary is checked against the
//! release-signed SHA2-256SUMS.

use crate::archive::{archive_in, err_data, extract_named, found_in, ok_data};
use crate::digest::{digest_text, first_twelve, is_digest, sha256_file, sha256_of, short_hash};
use crate::json::{complaint_of, document_of, member, parse_json, text_in_tree, tree, Json, Tree};
use crate::number::{dec, parse_u64, parse_undoes_text, unsigned_of};
use crate::path::{joins_in, lemma_is_plain, path_join, path_of, path_text, plain_name, route_of};
use crate::text::{
    a_text_falls_into_its_lines, contains, is_space, is_word, lemma_first_word, lemma_one_piece,
    lemma_space_before, line_list, lines, lowered, one_of, opt_str, opt_text, pieces, same, split,
    starts_with, text_in, texts, to_lowercase, trim, trim_start_of, trimmed, trimmed_start, within,
    word_list, words,
};
use crate::types::BinaryStatus;
use crate::update::{is_suffixed, with_suffix};
use vstd::prelude::*;

verus! {

// ---------------- where they are ----------------

/// Where the tools live, and on what system.
#[derive(Debug)]
pub struct Binaries {
    pub is_windows: bool,
    /// "Windows" | "Darwin" | "Linux"
    pub system: String,
    /// Architecture, in lowercase.
    pub machine: String,
    pub app_dir: String,
    pub bin_dir: String,
    pub plugins_dir: String,
    pub ytdlp_local: String,
    pub ffmpeg_local: String,
    pub ffprobe_local: String,
    pub deno_local: String,
}

/// The name of a system, by what the compiler calls it.
pub open spec fn system_of(os: Seq<char>) -> Seq<char> {
    if os == "windows"@ {
        "Windows"@
    } else if os == "macos"@ {
        "Darwin"@
    } else {
        "Linux"@
    }
}

/// The name of a system, by what the compiler calls it.
pub fn detect_system(os: &str) -> (r: String)
    ensures
        r@ == system_of(os@),
{
    if same(os, "windows") {
        "Windows".to_owned()
    } else if same(os, "macos") {
        "Darwin".to_owned()
    } else {
        "Linux".to_owned()
    }
}

/// `f` is the file of a tool in a directory: on Windows with the extension of
/// programs.
pub open spec fn is_tool_in(
    f: Seq<char>,
    dir: Seq<char>,
    tool: Seq<char>,
    is_windows: bool,
    windows: bool,
) -> bool {
    joins_in(
        f,
        dir,
        if is_windows {
            tool + ".exe"@
        } else {
            tool
        },
        windows,
    )
}

/// The home directory, or the current one where there is none.
pub open spec fn home_of(home: Option<Seq<char>>) -> Seq<char> {
    match home {
        Some(h) => h,
        None => "."@,
    }
}

/// The directories and tools below a home directory, with the separators of one
/// platform.
pub open spec fn is_laid_out(b: Binaries, home: Seq<char>, windows: bool) -> bool {
    &&& joins_in(b.app_dir@, home, ".video_tool_v3"@, windows)
    &&& joins_in(b.bin_dir@, b.app_dir@, "bin"@, windows)
    &&& joins_in(b.plugins_dir@, b.app_dir@, "plugins"@, windows)
    &&& is_tool_in(b.ytdlp_local@, b.bin_dir@, "yt-dlp"@, b.is_windows, windows)
    &&& is_tool_in(b.ffmpeg_local@, b.bin_dir@, "ffmpeg"@, b.is_windows, windows)
    &&& is_tool_in(b.ffprobe_local@, b.bin_dir@, "ffprobe"@, b.is_windows, windows)
    &&& is_tool_in(b.deno_local@, b.bin_dir@, "deno"@, b.is_windows, windows)
}

/// The name of a tool, with an extension or without, is a plain one.
proof fn lemma_tool_names()
    ensures
        plain_name("yt-dlp"@),
        plain_name("yt-dlp"@ + ".exe"@),
        plain_name("ffmpeg"@),
        plain_name("ffmpeg"@ + ".exe"@),
        plain_name("ffprobe"@),
        plain_name("ffprobe"@ + ".exe"@),
        plain_name("deno"@),
        plain_name("deno"@ + ".exe"@),
        plain_name(".video_tool_v3"@),
        plain_name("bin"@),
        plain_name("plugins"@),
{
    reveal_strlit("yt-dlp");
    reveal_strlit("ffmpeg");
    reveal_strlit("ffprobe");
    reveal_strlit("deno");
    reveal_strlit(".exe");
    reveal_strlit(".video_tool_v3");
    reveal_strlit("bin");
    reveal_strlit("plugins");
    lemma_is_plain("yt-dlp"@);
    lemma_is_plain("yt-dlp"@ + ".exe"@);
    lemma_is_plain("ffmpeg"@);
    lemma_is_plain("ffmpeg"@ + ".exe"@);
    lemma_is_plain("ffprobe"@);
    lemma_is_plain("ffprobe"@ + ".exe"@);
    lemma_is_plain("deno"@);
    lemma_is_plain("deno"@ + ".exe"@);
    lemma_is_plain(".video_tool_v3"@);
    lemma_is_plain("bin"@);
    lemma_is_plain("plugins"@);
}

fn tool_in(dir: &std::path::PathBuf, tool: &str, is_windows: bool) -> (r: String)
    requires
        plain_name(tool@),
        plain_name(tool@ + ".exe"@),
    ensures
        is_tool_in(r@, route_of(*dir).text, tool@, is_windows, route_of(*dir).windows),
{
    if is_windows {
        let mut name = tool.to_owned();
        name.append(".exe");
        path_text(&path_join(dir, name.as_str()))
    } else {
        path_text(&path_join(dir, tool))
    }
}

/// Where a tool is run from: the copy of the program where there is one, else
/// the one that the system finds by its name.
pub open spec fn tool_path(name: Seq<char>, local: Seq<char>, exists: bool) -> Seq<char> {
    if exists {
        local
    } else {
        name
    }
}

/// What is kept of the output of a tool.
pub open spec fn captured_text(stdout: Seq<char>, stderr: Seq<char>) -> Seq<char> {
    if trimmed(stdout).len() == 0 {
        stderr
    } else {
        stdout
    }
}

/// What the tools said of themselves, taken together.
pub open spec fn is_status(
    r: BinaryStatus,
    ytdlp: Option<Capture>,
    ffmpeg: Option<Capture>,
    encoders: Option<Capture>,
    targets: Option<Capture>,
    runs: Seq<(String, Option<Capture>)>,
) -> bool {
    &&& (r.ytdlp_ok, r.ytdlp_version@) == ytdlp_found(ytdlp)
    &&& (r.ffmpeg_ok, r.ffmpeg_version@) == ffmpeg_found(ffmpeg)
    &&& (r.deno_ok, r.deno_version@) == deno_found(runs)
    &&& r.hw_backend@ == (if r.ffmpeg_ok {
        hw_found(encoders)
    } else {
        "cpu"@
    })
    &&& r.impersonate_ok == (r.ytdlp_ok && good_text(targets) is Some)
    &&& r.js_runtime@ == (if r.deno_ok {
        first_word(r.deno_version@)
    } else {
        seq![]
    })
}

/// How a change of the channel ended.
pub open spec fn is_update(
    r: Result<String, String>,
    channel: Seq<char>,
    success: bool,
    text: Seq<char>,
) -> bool {
    if success {
        r is Ok && r->Ok_0@ == text
    } else {
        r is Err && r->Err_0@ == (if text.len() == 0 {
            "yt-dlp --update-to "@ + channel + " failed"@
        } else {
            text
        })
    }
}

/// The length that a header announces; none where it cannot be read.
pub open spec fn length_in(header: Option<Seq<char>>) -> nat {
    match header {
        Some(h) => match unsigned_of(h, u64::MAX as nat) {
            Some(n) => n,
            None => 0,
        },
        None => 0,
    }
}

/// The runtimes for scripts that are tried, each with what it is run as.
pub open spec fn runtimes(deno_local: Seq<char>, deno_exists: bool) -> Seq<(Seq<char>, Seq<char>)> {
    (if deno_exists {
        seq![("deno"@, deno_local)]
    } else {
        seq![]
    }) + seq![("deno"@, "deno"@), ("node"@, "node"@)]
}

/// Why a download of yt-dlp without checksums is turned away.
pub open spec fn sums_complaint(fetched: bool, error: Seq<char>) -> Seq<char> {
    (if fetched {
        "could not read SHA2-256SUMS ("@
    } else {
        "could not fetch SHA2-256SUMS ("@
    }) + error + ") - yt-dlp download discarded, please retry"@
}

impl Binaries {
    /// Where the tools live below a home directory; without one, below the
    /// current directory.
    pub fn new(os: &str, arch: &str, home: Option<&str>) -> (r: Binaries)
        ensures
            r.system@ == system_of(os@),
            r.is_windows == (system_of(os@) == "Windows"@),
            r.machine@ == lowered(arch@),
            exists|windows: bool| is_laid_out(r, home_of(opt_str(home)), windows),
    {
        proof {
            lemma_tool_names();
        }
        let system = detect_system(os);
        let is_windows = same(system.as_str(), "Windows");
        let base = match home {
            Some(h) => h,
            None => ".",
        };
        let app_dir = path_join(&path_of(base), ".video_tool_v3");
        let bin_dir = path_join(&app_dir, "bin");
        let plugins_dir = path_join(&app_dir, "plugins");
        let r = Binaries {
            is_windows,
            system,
            machine: to_lowercase(arch),
            app_dir: path_text(&app_dir),
            bin_dir: path_text(&bin_dir),
            plugins_dir: path_text(&plugins_dir),
            ytdlp_local: tool_in(&bin_dir, "yt-dlp", is_windows),
            ffmpeg_local: tool_in(&bin_dir, "ffmpeg", is_windows),
            ffprobe_local: tool_in(&bin_dir, "ffprobe", is_windows),
            deno_local: tool_in(&bin_dir, "deno", is_windows),
        };
        assert(base@ == home_of(opt_str(home)));
        assert(is_laid_out(r, home_of(opt_str(home)), route_of(app_dir).windows));
        r
    }

    // -- path resolution: prefer the local copy, else fall back to PATH --

    /// The program to run: the local copy where it exists, else the one on the
    /// path.
    pub fn resolve(&self, name: &str, local: &str, exists: bool) -> (r: String)
        ensures
            r@ == tool_path(name@, local@, exists),
    {
        if exists {
            local.to_owned()
        } else {
            name.to_owned()
        }
    }

    pub fn ytdlp_path(&self, exists: bool) -> (r: String)
        ensures
            r@ == tool_path("yt-dlp"@, self.ytdlp_local@, exists),
    {
        self.resolve("yt-dlp", self.ytdlp_local.as_str(), exists)
    }

    pub fn ffmpeg_path(&self, exists: bool) -> (r: String)
        ensures
            r@ == tool_path("ffmpeg"@, self.ffmpeg_local@, exists),
    {
        self.resolve("ffmpeg", self.ffmpeg_local.as_str(), exists)
    }

    pub fn ffprobe_path(&self, exists: bool) -> (r: String)
        ensures
            r@ == tool_path("ffprobe"@, self.ffprobe_local@, exists),
    {
        self.resolve("ffprobe", self.ffprobe_local.as_str(), exists)
    }

    /// The search path for a child process: with the directory of the tools in
    /// front, so a bundled Deno is found by yt-dlp. Nothing changes where the
    /// directory is on it already.
    pub fn search_path(&self, cur: &str) -> (r: Option<String>)
        ensures
            opt_text(r) == path_with(self.bin_dir@, cur@, self.is_windows),
    {
        let sep = if self.is_windows {
            ";"
        } else {
            ":"
        };
        proof {
            reveal_strlit(";");
            reveal_strlit(":");
        }
        let parts = split(cur, sep);
        if text_in(&parts, self.bin_dir.as_str()) {
            return None;
        }
        if cur.is_empty() {
            return Some(self.bin_dir.clone());
        }
        let mut out = self.bin_dir.clone();
        out.append(sep);
        out.append(cur);
        Some(out)
    }
}

/// The separator of search paths.
pub open spec fn path_sep(windows: bool) -> Seq<char> {
    if windows {
        ";"@
    } else {
        ":"@
    }
}

/// A search path with a directory in front, unless it is on it already.
pub open spec fn path_with(dir: Seq<char>, cur: Seq<char>, windows: bool) -> Option<Seq<char>> {
    if pieces(cur, path_sep(windows)).contains(dir) {
        None
    } else if cur.len() == 0 {
        Some(dir)
    } else {
        Some(dir + path_sep(windows) + cur)
    }
}

// ---------------- what they say ----------------

/// What a tool printed when it was asked: whether that went well, and the text.
#[derive(Debug)]
pub struct Capture {
    pub success: bool,
    pub text: String,
}

/// The text of a tool that ran well.
pub open spec fn good_text(c: Option<Capture>) -> Option<Seq<char>> {
    match c {
        Some(x) => if x.success {
            Some(x.text@)
        } else {
            None
        },
        None => None,
    }
}

fn good(c: &Option<Capture>) -> (r: Option<&str>)
    ensures
        match r {
            Some(s) => good_text(*c) == Some(s@),
            None => good_text(*c) is None,
        },
{
    match c {
        Some(x) => if x.success {
            Some(x.text.as_str())
        } else {
            None
        },
        None => None,
    }
}

/// Whether yt-dlp is there, and its version, by what it printed.
pub open spec fn ytdlp_found(c: Option<Capture>) -> (bool, Seq<char>) {
    match good_text(c) {
        Some(s) => if trimmed(s).len() == 0 {
            (true, "OK"@)
        } else {
            (true, trimmed(s))
        },
        None => (false, "Not found"@),
    }
}

/// The word behind the first "version", or "OK".
pub open spec fn word_behind_version(w: Seq<Seq<char>>, i: int) -> Seq<char>
    decreases w.len() - i,
{
    if i < 0 || i + 1 >= w.len() {
        "OK"@
    } else if w[i] == "version"@ {
        w[i + 1]
    } else {
        word_behind_version(w, i + 1)
    }
}

/// Whether FFmpeg is there, and its version, by what it printed.
pub open spec fn ffmpeg_found(c: Option<Capture>) -> (bool, Seq<char>) {
    match good_text(c) {
        Some(s) => (true, word_behind_version(word_list(s), 0)),
        None => (false, "Not found"@),
    }
}

/// The version of a runtime: the first line it printed, or its name where that
/// is blank.
pub open spec fn runtime_version(name: Seq<char>, text: Seq<char>) -> Seq<char> {
    let l = line_list(text);
    let first = if l.len() > 0 {
        trimmed(l[0])
    } else {
        trimmed(name)
    };
    if first.len() == 0 {
        name
    } else {
        first
    }
}

/// The first runtime that ran well from the `i`-th on, with its version; an
/// empty name stands for none.
pub open spec fn first_runtime(runs: Seq<(String, Option<Capture>)>, i: int) -> (
    Seq<char>,
    Seq<char>,
)
    decreases runs.len() - i,
{
    if i < 0 || i >= runs.len() {
        (seq![], seq![])
    } else {
        match good_text(runs[i].1) {
            Some(s) => (runs[i].0@, runtime_version(runs[i].0@, s)),
            None => first_runtime(runs, i + 1),
        }
    }
}

/// Whether a JS runtime is there, and what to call it.
pub open spec fn deno_found(runs: Seq<(String, Option<Capture>)>) -> (bool, Seq<char>) {
    let (name, ver) = first_runtime(runs, 0);
    if name.len() == 0 {
        (false, "Not found"@)
    } else if ver.len() > 0 && within(ver, name) {
        (true, ver)
    } else {
        (true, name + " "@ + ver)
    }
}

/// The hardware encoder that a lowercase list of encoders offers.
pub open spec fn encoder_in(lower: Seq<char>) -> Seq<char> {
    if within(lower, "h264_nvenc"@) {
        "nvidia"@
    } else if within(lower, "h264_qsv"@) {
        "intel"@
    } else if within(lower, "h264_amf"@) {
        "amd"@
    } else {
        "cpu"@
    }
}

/// The hardware encoder that FFmpeg lists.
pub open spec fn hw_found(c: Option<Capture>) -> Seq<char> {
    match good_text(c) {
        Some(s) => encoder_in(lowered(s)),
        None => "cpu"@,
    }
}

/// The first word of a text, empty where there is none.
pub open spec fn first_word(s: Seq<char>) -> Seq<char> {
    if word_list(s).len() > 0 {
        word_list(s)[0]
    } else {
        seq![]
    }
}

/// The hardware encoder that a lowercase list of encoders offers.
pub fn encoder_of(lower: &str) -> (r: String)
    ensures
        r@ == encoder_in(lower@),
{
    if contains(lower, "h264_nvenc") {
        "nvidia".to_owned()
    } else if contains(lower, "h264_qsv") {
        "intel".to_owned()
    } else if contains(lower, "h264_amf") {
        "amd".to_owned()
    } else {
        "cpu".to_owned()
    }
}

impl Binaries {
    /// What a tool printed: its standard output, or its errors where that is
    /// blank.
    pub fn run_capture(&self, success: bool, stdout: &str, stderr: &str) -> (r: Capture)
        ensures
            r.success == success,
            r.text@ == captured_text(stdout@, stderr@),
    {
        let text = if trim(stdout).as_str().is_empty() {
            stderr.to_owned()
        } else {
            stdout.to_owned()
        };
        Capture { success, text }
    }

    /// Whether yt-dlp is there, and its version, by what `--version` printed.
    pub fn check_ytdlp(&self, version: &Option<Capture>) -> (r: (bool, String))
        ensures
            (r.0, r.1@) == ytdlp_found(*version),
    {
        match good(version) {
            Some(s) => {
                let v = trim(s);
                if v.as_str().is_empty() {
                    (true, "OK".to_owned())
                } else {
                    (true, v)
                }
            },
            None => (false, "Not found".to_owned()),
        }
    }

    /// Whether FFmpeg is there, and its version, by what `-version` printed.
    pub fn check_ffmpeg(&self, version: &Option<Capture>) -> (r: (bool, String))
        ensures
            (r.0, r.1@) == ffmpeg_found(*version),
    {
        match good(version) {
            Some(s) => {
                let w = words(s);
                let ghost all = texts(w@);
                let n = w.len();
                let mut i: usize = 0;
                while i < n && i + 1 < n
                    invariant
                        n == w@.len(),
                        i <= n,
                        all == texts(w@),
                        all == word_list(s@),
                        good_text(*version) == Some(s@),
                        word_behind_version(all, 0) == word_behind_version(all, i as int),
                    decreases n - i,
                {
                    assert(all[i as int] == w@[i as int]@);
                    if same(w[i].as_str(), "version") {
                        assert(all[i + 1] == w@[i + 1]@);
                        return (true, w[i + 1].clone());
                    }
                    i += 1;
                }
                (true, "OK".to_owned())
            },
            None => (false, "Not found".to_owned()),
        }
    }

    /// The JS runtimes to try, in order, each with the program to run.
    pub fn js_candidates(&self, deno_exists: bool) -> (r: Vec<(String, String)>)
        ensures
            pairs_of(r@) == runtimes(self.deno_local@, deno_exists),
    {
        let mut out: Vec<(String, String)> = Vec::new();
        if deno_exists {
            out.push(("deno".to_owned(), self.deno_local.clone()));
        }
        out.push(("deno".to_owned(), "deno".to_owned()));
        out.push(("node".to_owned(), "node".to_owned()));
        assert(pairs_of(out@) =~= (if deno_exists {
            seq![("deno"@, self.deno_local@)]
        } else {
            seq![]
        }) + seq![("deno"@, "deno"@), ("node"@, "node"@)]);
        out
    }

    /// Returns ("deno"|"node"|"", version-string), by what `--version` of each
    /// runtime that was tried printed. None behind the first that ran well
    /// matters.
    pub fn js_runtime(&self, runs: &Vec<(String, Option<Capture>)>) -> (r: (String, String))
        ensures
            (r.0@, r.1@) == first_runtime(runs@, 0),
    {
        let n = runs.len();
        let mut i: usize = 0;
        while i < n
            invariant
                n == runs@.len(),
                i <= n,
                first_runtime(runs@, 0) == first_runtime(runs@, i as int),
            decreases n - i,
        {
            if let Some(s) = good(&runs[i].1) {
                let name = runs[i].0.as_str();
                let l = lines(s);
                assert(l@.len() > 0 ==> texts(l@)[0] == l@[0]@);
                let first = if l.len() > 0 {
                    trim(l[0].as_str())
                } else {
                    trim(name)
                };
                if first.as_str().is_empty() {
                    return (name.to_owned(), name.to_owned());
                }
                return (name.to_owned(), first);
            }
            i += 1;
        }
        let none = (String::new(), String::new());
        assert(none.0@ =~= seq![]);
        none
    }

    /// Whether a JS runtime is there, and what to call it.
    pub fn check_deno(&self, runs: &Vec<(String, Option<Capture>)>) -> (r: (bool, String))
        ensures
            (r.0, r.1@) == deno_found(runs@),
    {
        let (name, ver) = self.js_runtime(runs);
        if name.as_str().is_empty() {
            (false, "Not found".to_owned())
        } else if !ver.as_str().is_empty() && contains(ver.as_str(), name.as_str()) {
            (true, ver)
        } else {
            let mut out = name;
            out.append(" ");
            out.append(ver.as_str());
            (true, out)
        }
    }

    /// The hardware encoder that FFmpeg lists under `-encoders`.
    pub fn detect_hw_encoder(&self, encoders: &Option<Capture>) -> (r: String)
        ensures
            r@ == hw_found(*encoders),
    {
        match good(encoders) {
            Some(s) => encoder_of(to_lowercase(s).as_str()),
            None => "cpu".to_owned(),
        }
    }

    /// Whether yt-dlp can impersonate a browser: it lists whom.
    pub fn supports_impersonation(&self, targets: &Option<Capture>) -> (r: bool)
        ensures
            r == (good_text(*targets) is Some),
    {
        good(targets).is_some()
    }

    /// The status of the tools, by what each of them printed. Encoders and
    /// impersonation count only where the tool that offers them is there.
    pub fn probe_status(
        &self,
        ytdlp: &Option<Capture>,
        ffmpeg: &Option<Capture>,
        encoders: &Option<Capture>,
        targets: &Option<Capture>,
        runs: &Vec<(String, Option<Capture>)>,
    ) -> (r: BinaryStatus)
        ensures
            is_status(r, *ytdlp, *ffmpeg, *encoders, *targets, runs@),
    {
        let (ytdlp_ok, ytdlp_version) = self.check_ytdlp(ytdlp);
        let (ffmpeg_ok, ffmpeg_version) = self.check_ffmpeg(ffmpeg);
        let hw_backend = if ffmpeg_ok {
            self.detect_hw_encoder(encoders)
        } else {
            "cpu".to_owned()
        };
        let impersonate_ok = ytdlp_ok && self.supports_impersonation(targets);
        let (deno_ok, deno_version) = self.check_deno(runs);
        let mut js_runtime = String::new();
        if deno_ok {
            let w = words(deno_version.as_str());
            assert(w@.len() > 0 ==> texts(w@)[0] == w@[0]@);
            if w.len() > 0 {
                js_runtime = w[0].clone();
            }
        }
        assert(js_runtime@ =~= (if deno_ok {
            first_word(deno_version@)
        } else {
            seq![]
        }));
        BinaryStatus {
            ytdlp_ok,
            ytdlp_version,
            ffmpeg_ok,
            ffmpeg_version,
            deno_ok,
            deno_version,
            hw_backend,
            impersonate_ok,
            js_runtime,
        }
    }

    /// The result of switching yt-dlp to another release channel: what it
    /// printed, on either stream.
    pub fn update_channel(
        &self,
        channel: &str,
        success: bool,
        stdout: &str,
        stderr: &str,
    ) -> (r: Result<String, String>)
        ensures
            is_update(r, channel@, success, trimmed(stdout@ + stderr@)),
    {
        let mut all = stdout.to_owned();
        all.append(stderr);
        let text = trim(all.as_str());
        if success {
            return Ok(text);
        }
        if text.as_str().is_empty() {
            let mut out = "yt-dlp --update-to ".to_owned();
            out.append(channel);
            out.append(" failed");
            Err(out)
        } else {
            Err(text)
        }
    }
}

/// The contents of a list of pairs.
pub open spec fn pairs_of(v: Seq<(String, String)>) -> Seq<(Seq<char>, Seq<char>)> {
    v.map_values(|p: (String, String)| (p.0@, p.1@))
}

// ---------------- where they come from ----------------

/// The machine has an ARM processor of 64 bits.
pub open spec fn is_arm64(machine: Seq<char>) -> bool {
    within(machine, "aarch64"@) || within(machine, "arm64"@)
}

fn arm64(machine: &str) -> (r: bool)
    ensures
        r == is_arm64(machine@),
{
    contains(machine, "aarch64") || contains(machine, "arm64")
}

/// The yt-dlp asset of a system.
pub open spec fn ytdlp_asset(system: Seq<char>, machine: Seq<char>) -> Seq<char> {
    if system == "Windows"@ {
        "yt-dlp.exe"@
    } else if system == "Darwin"@ {
        "yt-dlp_macos"@
    } else if is_arm64(machine) {
        "yt-dlp_linux_aarch64"@
    } else {
        "yt-dlp"@
    }
}

/// The Deno asset of a system.
pub open spec fn deno_asset(system: Seq<char>, machine: Seq<char>) -> Seq<char> {
    if system == "Windows"@ {
        "deno-x86_64-pc-windows-msvc.zip"@
    } else if system == "Darwin"@ {
        if is_arm64(machine) {
            "deno-aarch64-apple-darwin.zip"@
        } else {
            "deno-x86_64-apple-darwin.zip"@
        }
    } else if is_arm64(machine) {
        "deno-aarch64-unknown-linux-gnu.zip"@
    } else {
        "deno-x86_64-unknown-linux-gnu.zip"@
    }
}

/// The name of a system in the list of FFmpeg builds.
pub open spec fn ffmpeg_key(system: Seq<char>, machine: Seq<char>) -> Seq<char> {
    if system == "Windows"@ {
        "windows-64"@
    } else if system == "Darwin"@ {
        "osx-64"@
    } else if is_arm64(machine) {
        "linux-arm64"@
    } else {
        "linux-64"@
    }
}

pub const YTDLP_BASE: &'static str = "https://github.com/yt-dlp/yt-dlp/releases/latest/download/";

pub const SUMS_URL: &'static str =
    "https://github.com/yt-dlp/yt-dlp/releases/latest/download/SHA2-256SUMS";

pub const DENO_BASE: &'static str = "https://github.com/denoland/deno/releases/latest/download/";

pub const FFBINARIES_URL: &'static str = "https://ffbinaries.com/api/v1/version/latest";

impl Binaries {
    /// The URL of yt-dlp for this system, and the name of the asset.
    pub fn ytdlp_url(&self) -> (r: (String, String))
        ensures
            r.1@ == ytdlp_asset(self.system@, self.machine@),
            r.0@ == YTDLP_BASE@ + ytdlp_asset(self.system@, self.machine@),
    {
        let asset = if same(self.system.as_str(), "Windows") {
            "yt-dlp.exe"
        } else if same(self.system.as_str(), "Darwin") {
            "yt-dlp_macos"
        } else if arm64(self.machine.as_str()) {
            "yt-dlp_linux_aarch64"
        } else {
            "yt-dlp"
        };
        let mut url = YTDLP_BASE.to_owned();
        url.append(asset);
        (url, asset.to_owned())
    }

    /// The name of this system in the list of FFmpeg builds.
    pub fn ffmpeg_platform_key(&self) -> (r: &'static str)
        ensures
            r@ == ffmpeg_key(self.system@, self.machine@),
    {
        if same(self.system.as_str(), "Windows") {
            "windows-64"
        } else if same(self.system.as_str(), "Darwin") {
            "osx-64"
        } else if arm64(self.machine.as_str()) {
            "linux-arm64"
        } else {
            "linux-64"
        }
    }

    /// The URL of Deno for this system.
    pub fn deno_url(&self) -> (r: String)
        ensures
            r@ == DENO_BASE@ + deno_asset(self.system@, self.machine@),
    {
        let arm = arm64(self.machine.as_str());
        let asset = if same(self.system.as_str(), "Windows") {
            "deno-x86_64-pc-windows-msvc.zip"
        } else if same(self.system.as_str(), "Darwin") {
            if arm {
                "deno-aarch64-apple-darwin.zip"
            } else {
                "deno-x86_64-apple-darwin.zip"
            }
        } else if arm {
            "deno-aarch64-unknown-linux-gnu.zip"
        } else {
            "deno-x86_64-unknown-linux-gnu.zip"
        };
        let mut url = DENO_BASE.to_owned();
        url.append(asset);
        url
    }
}

/// The programs that an FFmpeg build consists of.
pub const FFMPEG_TOOLS: [&'static str; 2] = ["ffmpeg", "ffprobe"];

/// The programs up to the `n`-th that a list of builds has a URL for, each with
/// its URL.
pub open spec fn tool_urls(builds: Tree, n: int) -> Seq<(Seq<char>, Seq<char>)>
    decreases n,
{
    if n <= 0 {
        seq![]
    } else {
        let before = tool_urls(builds, n - 1);
        match text_in_tree(member(builds, FFMPEG_TOOLS@[n - 1]@)) {
            Some(u) => before.push((FFMPEG_TOOLS@[n - 1]@, u)),
            None => before,
        }
    }
}

/// The builds for a system in the list of FFmpeg builds.
pub open spec fn builds_for(doc: Tree, key: Seq<char>) -> Tree {
    member(member(doc, "bin"@), key)
}

fn tool_url_list(builds: &Json) -> (r: Vec<(String, String)>)
    ensures
        pairs_of(r@) == tool_urls(tree(*builds), FFMPEG_TOOLS@.len() as int),
{
    let mut out: Vec<(String, String)> = Vec::new();
    assert(pairs_of(out@) =~= tool_urls(tree(*builds), 0));
    for i in 0..FFMPEG_TOOLS.len()
        invariant
            pairs_of(out@) == tool_urls(tree(*builds), i as int),
    {
        let ghost before = pairs_of(out@);
        if let Some(u) = builds.text_at(FFMPEG_TOOLS[i]) {
            out.push((FFMPEG_TOOLS[i].to_owned(), u.to_owned()));
            assert(pairs_of(out@) =~= before.push((FFMPEG_TOOLS@[i as int]@, u@)));
        }
    }
    out
}

/// `r` is what to download for FFmpeg on the system `key`, or why nothing can
/// be.
pub open spec fn is_download_list(
    r: Result<Vec<(String, String)>, String>,
    text: Seq<char>,
    key: Seq<char>,
) -> bool {
    match document_of(text) {
        None => r is Err && r->Err_0@ == "ffbinaries json: "@ + complaint_of(text),
        Some(doc) => if builds_for(doc, key) is Object {
            r is Ok && pairs_of(r->Ok_0@) == tool_urls(
                builds_for(doc, key),
                FFMPEG_TOOLS@.len() as int,
            )
        } else {
            r is Err && r->Err_0@ == "No ffmpeg binaries available for "@ + key + "."@
        },
    }
}

/// What to download for FFmpeg on the system `key`, from the text of the list
/// of builds: each program that has a URL there.
pub fn ffmpeg_downloads(text: &str, key: &str) -> (r: Result<Vec<(String, String)>, String>)
    ensures
        is_download_list(r, text@, key@),
{
    match parse_json(text) {
        Err(e) => {
            let mut out = "ffbinaries json: ".to_owned();
            out.append(e.as_str());
            Err(out)
        },
        Ok(doc) => {
            if let Some(bin) = doc.get("bin") {
                if let Some(builds) = bin.get(key) {
                    if builds.is_object() {
                        return Ok(tool_url_list(builds));
                    }
                }
            }
            let mut out = "No ffmpeg binaries available for ".to_owned();
            out.append(key);
            out.append(".");
            Err(out)
        },
    }
}

// ---------------- when they are let in ----------------

/// A URL whose lowercase form is `lower` goes over HTTPS.
pub open spec fn is_https(lower: Seq<char>) -> bool {
    "https://"@.is_prefix_of(lower)
}

/// Whether a lowercase URL goes over HTTPS.
pub fn https(lower: &str) -> (r: bool)
    ensures
        r == is_https(lower@),
{
    starts_with(lower, "https://")
}

/// Lets a download URL through only over HTTPS.
pub fn vet_url(url: &str) -> (r: Result<(), String>)
    ensures
        r is Ok == is_https(lowered(url@)),
        r is Err ==> r->Err_0@ == "Refusing non-HTTPS download URL: "@ + url@,
{
    if https(to_lowercase(url).as_str()) {
        Ok(())
    } else {
        let mut out = "Refusing non-HTTPS download URL: ".to_owned();
        out.append(url);
        Err(out)
    }
}

/// Lets the URL that served a download through only over HTTPS. Redirects are
/// followed automatically, so the URL that was vetted first is not necessarily
/// the one that served the bytes; a redirect to http:// would silently
/// downgrade the transport for an executable that is about to run.
pub fn vet_redirect(url: &str) -> (r: Result<(), String>)
    ensures
        r is Ok == is_https(lowered(url@)),
        r is Err ==> r->Err_0@ == "Refusing redirect to a non-HTTPS URL: "@ + url@,
{
    if https(to_lowercase(url).as_str()) {
        Ok(())
    } else {
        let mut out = "Refusing redirect to a non-HTTPS URL: ".to_owned();
        out.append(url);
        Err(out)
    }
}

/// How many bytes a download is to have, by its header; zero where that is not
/// known.
pub fn announced_length(header: Option<&str>) -> (r: u64)
    ensures
        r == length_in(opt_str(header)),
{
    match header {
        Some(h) => match parse_u64(h) {
            Some(n) => n,
            None => 0,
        },
        None => 0,
    }
}

/// The digest that a line of the checksum list gives for an asset: a digest and
/// a name, the name perhaps with an asterisk in front.
pub open spec fn digest_in_line(line: Seq<char>, asset: Seq<char>) -> Option<Seq<char>> {
    let w = word_list(line);
    if w.len() == 2 && trimmed_start(w[1], one_of(seq!['*'])) == asset {
        Some(lowered(w[0]))
    } else {
        None
    }
}

/// The first usable digest for an asset from the `i`-th line on.
pub open spec fn digest_from(lines: Seq<Seq<char>>, asset: Seq<char>, i: int) -> Option<Seq<char>>
    decreases lines.len() - i,
{
    if i < 0 || i >= lines.len() {
        None
    } else {
        match digest_in_line(lines[i], asset) {
            Some(d) => if is_digest(d) {
                Some(d)
            } else {
                digest_from(lines, asset, i + 1)
            },
            None => digest_from(lines, asset, i + 1),
        }
    }
}

fn line_digest(line: &str, asset: &str) -> (r: Option<String>)
    ensures
        opt_text(r) == digest_in_line(line@, asset@),
{
    let w = words(line);
    if w.len() != 2 {
        return None;
    }
    let star = ['*'];
    assert(star@ =~= seq!['*']);
    assert(texts(w@)[0] == w@[0]@ && texts(w@)[1] == w@[1]@);
    let name = trim_start_of(w[1].as_str(), &star);
    if same(name.as_str(), asset) {
        Some(to_lowercase(w[0].as_str()))
    } else {
        None
    }
}

/// The digest that the checksum list gives for an asset.
pub fn expected_digest(sums: &str, asset: &str) -> (r: Option<String>)
    ensures
        opt_text(r) == digest_from(line_list(sums@), asset@, 0),
{
    let all = lines(sums);
    let ghost ls = texts(all@);
    let n = all.len();
    let mut i: usize = 0;
    while i < n
        invariant
            n == all@.len(),
            i <= n,
            ls == texts(all@),
            ls == line_list(sums@),
            digest_from(ls, asset@, 0) == digest_from(ls, asset@, i as int),
        decreases n - i,
    {
        assert(ls[i as int] == all@[i as int]@);
        if let Some(d) = line_digest(all[i].as_str(), asset) {
            if digest_text(d.as_str()) {
                return Some(d);
            }
        }
        i += 1;
    }
    None
}

/// A yt-dlp binary is the one that the checksum list promises.
pub open spec fn is_listed(sums: Seq<char>, asset: Seq<char>, bytes: Seq<u8>) -> bool {
    digest_from(line_list(sums), asset, 0) == Some(sha256_of(bytes))
}

/// Why a yt-dlp binary is turned away.
pub open spec fn turned_away(sums: Seq<char>, asset: Seq<char>, bytes: Seq<u8>) -> Seq<char> {
    match digest_from(line_list(sums), asset, 0) {
        None => "no valid SHA2-256SUMS entry for '"@ + asset + "' - yt-dlp download discarded"@,
        Some(expected) => "yt-dlp checksum mismatch - download discarded (expected "@
            + first_twelve(expected) + "..., got "@ + first_twelve(sha256_of(bytes)) + "...)."@,
    }
}

/// Verifies a freshly downloaded yt-dlp binary against SHA2-256SUMS.
///
/// Fails closed. This binary is executed with the user's privileges on every
/// download, so "could not verify" has to be treated exactly like "did not
/// match": anything able to disrupt the checksum request would otherwise be
/// enough to get an unverified executable installed.
pub fn verify_ytdlp_checksum(sums: &str, asset: &str, bytes: &Vec<u8>) -> (r: Result<(), String>)
    ensures
        r is Ok == is_listed(sums@, asset@, bytes@),
        r is Err ==> r->Err_0@ == turned_away(sums@, asset@, bytes@),
{
    match expected_digest(sums, asset) {
        None => {
            let mut out = "no valid SHA2-256SUMS entry for '".to_owned();
            out.append(asset);
            out.append("' - yt-dlp download discarded");
            Err(out)
        },
        Some(expected) => {
            let actual = sha256_file(bytes);
            if same(actual.as_str(), expected.as_str()) {
                Ok(())
            } else {
                let mut out = "yt-dlp checksum mismatch - download discarded (expected ".to_owned();
                out.append(short_hash(expected.as_str()).as_str());
                out.append("..., got ");
                out.append(short_hash(actual.as_str()).as_str());
                out.append("...).");
                Err(out)
            }
        },
    }
}

impl Binaries {
    /// Lets a freshly downloaded yt-dlp binary in, by the checksum list.
    pub fn install_ytdlp(&self, sums: &str, bytes: &Vec<u8>) -> (r: Result<(), String>)
        ensures
            r is Ok == is_listed(sums@, ytdlp_asset(self.system@, self.machine@), bytes@),
            r is Err ==> r->Err_0@ == turned_away(
                sums@,
                ytdlp_asset(self.system@, self.machine@),
                bytes@,
            ),
    {
        let (_, asset) = self.ytdlp_url();
        verify_ytdlp_checksum(sums, asset.as_str(), bytes)
    }

    /// What to download for FFmpeg on this system, from the text of the list of
    /// builds: each program that has a URL there.
    pub fn install_ffmpeg(&self, text: &str) -> (r: Result<Vec<(String, String)>, String>)
        ensures
            is_download_list(r, text@, ffmpeg_key(self.system@, self.machine@)),
    {
        ffmpeg_downloads(text, self.ffmpeg_platform_key())
    }

    /// The Deno program in the bytes of its archive.
    pub fn install_deno(&self, zip: Vec<u8>) -> (r: Result<Vec<u8>, String>)
        ensures
            match r {
                Ok(d) => found_in(archive_in(zip@), "deno"@) == ok_data(d@),
                Err(e) => found_in(archive_in(zip@), "deno"@) == err_data(e@),
            },
    {
        extract_named(zip, "deno")
    }
}

/// What is said when the checksum list could not be had.
pub fn sums_error(fetched: bool, error: &str) -> (r: String)
    ensures
        r@ == sums_complaint(fetched, error@),
{
    let mut out = if fetched {
        "could not read SHA2-256SUMS (".to_owned()
    } else {
        "could not fetch SHA2-256SUMS (".to_owned()
    };
    out.append(error);
    out.append(") - yt-dlp download discarded, please retry");
    out
}

/// The file that a download is written to before it is complete: the target
/// with ".part" behind its name.
pub fn part_path(target: &std::path::PathBuf) -> (r: std::path::PathBuf)
    ensures
        is_suffixed(route_of(r), route_of(*target), ".part"@),
{
    with_suffix(target, ".part")
}

// ---------------- laws ----------------

proof fn lemma_digest_from(lines: Seq<Seq<char>>, asset: Seq<char>, i: int)
    ensures
        digest_from(lines, asset, i) is Some ==> is_digest(digest_from(lines, asset, i)->0),
    decreases lines.len() - i,
{
    if 0 <= i < lines.len() {
        lemma_digest_from(lines, asset, i + 1);
    }
}

/// A yt-dlp binary gets in only with a digest that the list gives for it. An
/// empty list, one without the asset or one without a usable digest for it
/// turns every binary away.
pub proof fn an_unlisted_binary_is_turned_away(sums: Seq<char>, asset: Seq<char>, bytes: Seq<u8>)
    ensures
        is_listed(sums, asset, bytes) ==> digest_from(line_list(sums), asset, 0) is Some
            && is_digest(digest_from(line_list(sums), asset, 0)->0),
        digest_from(line_list(sums), asset, 0) is None ==> !is_listed(sums, asset, bytes),
        digest_from(line_list(sums), asset, 0) is Some && digest_from(line_list(sums), asset, 0)->0
            != sha256_of(bytes) ==> !is_listed(sums, asset, bytes),
{
    lemma_digest_from(line_list(sums), asset, 0);
}

/// Once the directory of the tools is on the search path it is not put there
/// again, as long as its name does not hold the separator.
pub proof fn the_search_path_is_extended_once(dir: Seq<char>, cur: Seq<char>, windows: bool)
    requires
        !within(dir, path_sep(windows)),
        path_with(dir, cur, windows) is Some,
    ensures
        path_with(dir, path_with(dir, cur, windows)->0, windows) is None,
{
    let sep = path_sep(windows);
    let new = path_with(dir, cur, windows)->0;
    reveal_strlit(";");
    reveal_strlit(":");
    if cur.len() == 0 {
        crate::text::lemma_first_at(dir, sep, 0);
        assert(pieces(dir, sep)[0] == dir);
    } else {
        assert(new == dir + sep + cur);
        assert forall|j: int| 0 <= j < dir.len() implies !crate::text::is_at(new, sep, j) by {
            if crate::text::is_at(new, sep, j) {
                assert(new.subrange(j, j + 1) =~= dir.subrange(j, j + 1));
                assert(crate::text::is_at(dir, sep, j));
            }
        }
        crate::util::lemma_cut_behind(new, sep, dir, cur);
        assert(pieces(new, sep)[0] == dir);
    }
}

/// The FFmpeg builds that are downloaded are those of the system and of its
/// processor.
pub proof fn ffmpeg_builds_are_for_this_system(machine: Seq<char>)
    ensures
        ffmpeg_key(system_of("windows"@), machine) == "windows-64"@,
        ffmpeg_key(system_of("macos"@), machine) == "osx-64"@,
        within(machine, "aarch64"@) || within(machine, "arm64"@) ==> ffmpeg_key(
            system_of("linux"@),
            machine,
        ) == "linux-arm64"@,
        !within(machine, "aarch64"@) && !within(machine, "arm64"@) ==> ffmpeg_key(
            system_of("linux"@),
            machine,
        ) == "linux-64"@,
{
    lemma_systems();
}

/// Two systems never share the builds of FFmpeg, of yt-dlp or of Deno, whatever
/// their processors.
pub proof fn systems_share_no_builds(a: Seq<char>, b: Seq<char>, m: Seq<char>, n: Seq<char>)
    requires
        a != b,
        a == "Windows"@ || a == "Darwin"@ || a == "Linux"@,
        b == "Windows"@ || b == "Darwin"@ || b == "Linux"@,
    ensures
        ffmpeg_key(a, m) != ffmpeg_key(b, n),
        ytdlp_asset(a, m) != ytdlp_asset(b, n),
        deno_asset(a, m) != deno_asset(b, n),
{
    lemma_systems();
    lemma_builds_differ();
}

proof fn lemma_systems()
    ensures
        system_of("windows"@) == "Windows"@,
        system_of("macos"@) == "Darwin"@,
        system_of("linux"@) == "Linux"@,
        "Windows"@ != "Darwin"@,
        "Windows"@ != "Linux"@,
        "Darwin"@ != "Linux"@,
{
    reveal_strlit("windows");
    reveal_strlit("macos");
    reveal_strlit("linux");
    reveal_strlit("Windows");
    reveal_strlit("Darwin");
    reveal_strlit("Linux");
    assert("windows"@[0] == 'w' && "macos"@[0] == 'm' && "linux"@[0] == 'l');
    assert("Windows"@[0] == 'W' && "Darwin"@[0] == 'D' && "Linux"@[0] == 'L');
}

proof fn lemma_builds_differ()
    ensures
        "windows-64"@[0] == 'w',
        "osx-64"@[0] == 'o',
        "linux-arm64"@[0] == 'l',
        "linux-64"@[0] == 'l',
        "yt-dlp.exe"@.len() == 10,
        "yt-dlp_macos"@.len() == 12,
        "yt-dlp_linux_aarch64"@.len() == 20,
        "yt-dlp"@.len() == 6,
        "deno-x86_64-pc-windows-msvc.zip"@.len() == 31,
        "deno-aarch64-apple-darwin.zip"@.len() == 29,
        "deno-x86_64-apple-darwin.zip"@.len() == 28,
        "deno-aarch64-unknown-linux-gnu.zip"@.len() == 34,
        "deno-x86_64-unknown-linux-gnu.zip"@.len() == 33,
{
    reveal_strlit("windows-64");
    reveal_strlit("osx-64");
    reveal_strlit("linux-arm64");
    reveal_strlit("linux-64");
    reveal_strlit("yt-dlp.exe");
    reveal_strlit("yt-dlp_macos");
    reveal_strlit("yt-dlp_linux_aarch64");
    reveal_strlit("yt-dlp");
    reveal_strlit("deno-x86_64-pc-windows-msvc.zip");
    reveal_strlit("deno-aarch64-apple-darwin.zip");
    reveal_strlit("deno-x86_64-apple-darwin.zip");
    reveal_strlit("deno-aarch64-unknown-linux-gnu.zip");
    reveal_strlit("deno-x86_64-unknown-linux-gnu.zip");
}

/// The yt-dlp that is downloaded is the one of the system and of its processor.
pub proof fn ytdlp_is_for_this_system(machine: Seq<char>)
    ensures
        ytdlp_asset(system_of("windows"@), machine) == "yt-dlp.exe"@,
        ytdlp_asset(system_of("macos"@), machine) == "yt-dlp_macos"@,
        within(machine, "aarch64"@) || within(machine, "arm64"@) ==> ytdlp_asset(
            system_of("linux"@),
            machine,
        ) == "yt-dlp_linux_aarch64"@,
        !within(machine, "aarch64"@) && !within(machine, "arm64"@) ==> ytdlp_asset(
            system_of("linux"@),
            machine,
        ) == "yt-dlp"@,
{
    lemma_systems();
}

/// The Deno that is downloaded names the system and, but for Windows, its
/// processor.
pub proof fn deno_is_for_this_system(machine: Seq<char>)
    ensures
        deno_asset(system_of("windows"@), machine) == "deno-x86_64-pc-windows-msvc.zip"@,
        within(machine, "aarch64"@) || within(machine, "arm64"@) ==> {
            &&& deno_asset(system_of("macos"@), machine) == "deno-aarch64-apple-darwin.zip"@
            &&& deno_asset(system_of("linux"@), machine) == "deno-aarch64-unknown-linux-gnu.zip"@
        },
        !within(machine, "aarch64"@) && !within(machine, "arm64"@) ==> {
            &&& deno_asset(system_of("macos"@), machine) == "deno-x86_64-apple-darwin.zip"@
            &&& deno_asset(system_of("linux"@), machine) == "deno-x86_64-unknown-linux-gnu.zip"@
        },
{
    lemma_systems();
}

/// Everything that is downloaded to be run comes over HTTPS from the project
/// that makes it.
pub proof fn tools_come_from_their_makers()
    ensures
        "https://github.com/yt-dlp/yt-dlp/releases/latest/download/"@.is_prefix_of(YTDLP_BASE@),
        "https://github.com/yt-dlp/yt-dlp/releases/latest/download/"@.is_prefix_of(SUMS_URL@),
        "https://github.com/denoland/deno/releases/latest/download/"@.is_prefix_of(DENO_BASE@),
        "https://ffbinaries.com/"@.is_prefix_of(FFBINARIES_URL@),
{
    reveal_strlit("https://github.com/yt-dlp/yt-dlp/releases/latest/download/");
    reveal_strlit("https://github.com/yt-dlp/yt-dlp/releases/latest/download/SHA2-256SUMS");
    reveal_strlit("https://ffbinaries.com/");
    reveal_strlit("https://ffbinaries.com/api/v1/version/latest");
    let y = "https://github.com/yt-dlp/yt-dlp/releases/latest/download/"@;
    let d = "https://github.com/denoland/deno/releases/latest/download/"@;
    let f = "https://ffbinaries.com/"@;
    assert(y.subrange(0, y.len() as int) =~= y);
    assert(d.subrange(0, d.len() as int) =~= d);
    assert(SUMS_URL@.subrange(0, y.len() as int) =~= y);
    assert(FFBINARIES_URL@.subrange(0, f.len() as int) =~= f);
}

/// Where the list of builds has a URL for a program of FFmpeg, that URL is
/// downloaded for that program; where it has none, nothing is.
pub proof fn each_ffmpeg_program_has_its_own_url(builds: Tree)
    ensures
        ({
            let urls = tool_urls(builds, 2);
            let a = text_in_tree(member(builds, "ffmpeg"@));
            let b = text_in_tree(member(builds, "ffprobe"@));
            &&& FFMPEG_TOOLS@.len() == 2
            &&& a is Some && b is Some ==> urls == seq![("ffmpeg"@, a->0), ("ffprobe"@, b->0)]
            &&& a is Some && b is None ==> urls == seq![("ffmpeg"@, a->0)]
            &&& a is None && b is Some ==> urls == seq![("ffprobe"@, b->0)]
            &&& a is None && b is None ==> urls.len() == 0
        }),
{
    let none = tool_urls(builds, 0);
    let one = tool_urls(builds, 1);
    let two = tool_urls(builds, 2);
    assert(FFMPEG_TOOLS@[0]@ == "ffmpeg"@ && FFMPEG_TOOLS@[1]@ == "ffprobe"@);
    assert(none =~= Seq::empty());
    assert(two =~= two);
}

/// A line of the checksum list gives its digest to the file it names, with or
/// without the asterisk of binary files, and to no other.
pub proof fn a_checksum_belongs_to_its_file(digest: Seq<char>, name: Seq<char>, other: Seq<char>)
    requires
        is_word(digest),
        is_word(name),
        name[0] != '*',
        other != name,
    ensures
        digest_in_line(digest + seq![' ', ' '] + name, name) == Some(lowered(digest)),
        digest_in_line(digest + seq![' ', '*'] + name, name) == Some(lowered(digest)),
        digest_in_line(digest + seq![' ', ' '] + name, other) is None,
        digest_in_line(digest + seq![' ', '*'] + name, other) is None,
{
    let drop = one_of(seq!['*']);
    let starred = seq!['*'] + name;
    let none = Seq::<char>::empty();
    assert(seq!['*'][0] == '*');
    assert(drop('*') && !drop(name[0]));
    assert(starred.skip(1) =~= name);
    assert(trimmed_start(name, drop) == name);
    assert(starred[0] == '*');
    assert(trimmed_start(starred, drop) == name);
    assert(word_list(none) =~= seq![]);
    let plain = digest + seq![' ', ' '] + name;
    assert(plain =~= digest + (seq![' '] + (seq![' '] + (name + none))));
    lemma_first_word(digest, seq![' '] + (seq![' '] + (name + none)));
    lemma_space_before(' ', seq![' '] + (name + none));
    lemma_space_before(' ', name + none);
    lemma_first_word(name, none);
    assert(word_list(plain) =~= seq![digest, name]);
    let star = digest + seq![' ', '*'] + name;
    assert(star =~= digest + (seq![' '] + (starred + none)));
    assert forall|i: int| 0 <= i < starred.len() implies !is_space(#[trigger] starred[i]) by {
        if i > 0 {
            assert(starred[i] == name[i - 1]);
        }
    }
    lemma_first_word(digest, seq![' '] + (starred + none));
    lemma_space_before(' ', starred + none);
    lemma_first_word(starred, none);
    assert(word_list(star) =~= seq![digest, starred]);
}

/// The digest that counts is that of the first line that has a usable one for
/// the file: lines before it that have none make no difference.
pub proof fn the_first_usable_checksum_counts(lines: Seq<Seq<char>>, asset: Seq<char>, i: int)
    requires
        0 <= i < lines.len(),
        digest_in_line(lines[i], asset) is Some,
        is_digest(digest_in_line(lines[i], asset)->0),
        forall|j: int|
            0 <= j < i ==> digest_in_line(#[trigger] lines[j], asset) is None || !is_digest(
                digest_in_line(lines[j], asset)->0,
            ),
    ensures
        digest_from(lines, asset, 0) == digest_in_line(lines[i], asset),
{
    lemma_digest_at(lines, asset, 0, i);
}

proof fn lemma_digest_at(lines: Seq<Seq<char>>, asset: Seq<char>, at: int, i: int)
    requires
        0 <= at <= i < lines.len(),
        digest_in_line(lines[i], asset) is Some,
        is_digest(digest_in_line(lines[i], asset)->0),
        forall|j: int|
            at <= j < i ==> digest_in_line(#[trigger] lines[j], asset) is None || !is_digest(
                digest_in_line(lines[j], asset)->0,
            ),
    ensures
        digest_from(lines, asset, at) == digest_in_line(lines[i], asset),
    decreases i - at,
{
    if at < i {
        assert(digest_in_line(lines[at], asset) is None || !is_digest(
            digest_in_line(lines[at], asset)->0,
        ));
        lemma_digest_at(lines, asset, at + 1, i);
    }
}

/// A binary with the digest that its line gives is let in, and one with another
/// digest is not.
pub proof fn a_listed_binary_is_let_in(sums: Seq<char>, asset: Seq<char>, bytes: Seq<u8>, i: int)
    requires
        ({
            let lines = line_list(sums);
            &&& 0 <= i < lines.len()
            &&& digest_in_line(lines[i], asset) is Some
            &&& is_digest(digest_in_line(lines[i], asset)->0)
            &&& forall|j: int| 0 <= j < i ==> digest_in_line(#[trigger] lines[j], asset) is None
        }),
    ensures
        is_listed(sums, asset, bytes) <==> digest_in_line(line_list(sums)[i], asset) == Some(
            sha256_of(bytes),
        ),
{
    the_first_usable_checksum_counts(line_list(sums), asset, i);
}

/// A URL is let through over HTTPS only.
pub proof fn only_https_is_let_through(rest: Seq<char>)
    ensures
        is_https("https://"@ + rest),
        !is_https("http://"@ + rest),
        !is_https("ftp://"@ + rest),
        !is_https("file://"@ + rest),
{
    reveal_strlit("https://");
    reveal_strlit("http://");
    reveal_strlit("ftp://");
    reveal_strlit("file://");
    let s = "https://"@;
    assert((s + rest).subrange(0, 8) =~= s);
    let h = "http://"@ + rest;
    let f = "ftp://"@ + rest;
    let l = "file://"@ + rest;
    assert(h[4] == ':' && s[4] == 's');
    assert(f[0] == 'f' && l[0] == 'f' && s[0] == 'h');
    if is_https(h) {
        assert(h.subrange(0, 8)[4] == s[4]);
    }
    if is_https(f) {
        assert(f.subrange(0, 8)[0] == s[0]);
    }
    if is_https(l) {
        assert(l.subrange(0, 8)[0] == s[0]);
    }
}

/// The hardware encoder that is picked is one that FFmpeg lists: NVIDIA before
/// Intel before AMD, and the processor where none is.
pub proof fn the_encoder_is_one_that_is_listed(lower: Seq<char>)
    ensures
        encoder_in(lower) == "nvidia"@ <==> within(lower, "h264_nvenc"@),
        encoder_in(lower) == "intel"@ <==> within(lower, "h264_qsv"@) && !within(
            lower,
            "h264_nvenc"@,
        ),
        encoder_in(lower) == "amd"@ <==> within(lower, "h264_amf"@) && !within(
            lower,
            "h264_nvenc"@,
        ) && !within(lower, "h264_qsv"@),
        encoder_in(lower) == "cpu"@ <==> !within(lower, "h264_amf"@) && !within(
            lower,
            "h264_nvenc"@,
        ) && !within(lower, "h264_qsv"@),
{
    reveal_strlit("nvidia");
    reveal_strlit("intel");
    reveal_strlit("amd");
    reveal_strlit("cpu");
    assert("nvidia"@[0] == 'n' && "intel"@[0] == 'i' && "amd"@[0] == 'a' && "cpu"@[0] == 'c');
}

/// A tool counts as found exactly when it ran well; its version is what it
/// printed, without white space around it.
pub proof fn a_tool_is_found_when_it_runs(c: Option<Capture>)
    ensures
        ytdlp_found(c).0 <==> c is Some && c->0.success,
        ffmpeg_found(c).0 <==> c is Some && c->0.success,
        c is Some && c->0.success && trimmed(c->0.text@).len() > 0 ==> ytdlp_found(c).1 == trimmed(
            c->0.text@,
        ),
        !(c is Some && c->0.success) ==> ytdlp_found(c).1 == "Not found"@ && ffmpeg_found(c).1
            == "Not found"@ && hw_found(c) == "cpu"@,
{
}

/// The version of FFmpeg is the word behind the first "version" it prints.
pub proof fn the_version_stands_behind_its_word(w: Seq<Seq<char>>, i: int)
    requires
        0 <= i,
        i + 1 < w.len(),
        w[i] == "version"@,
        forall|j: int| 0 <= j < i ==> #[trigger] w[j] != "version"@,
    ensures
        word_behind_version(w, 0) == w[i + 1],
{
    lemma_version_at(w, 0, i);
}

proof fn lemma_version_at(w: Seq<Seq<char>>, at: int, i: int)
    requires
        0 <= at <= i,
        i + 1 < w.len(),
        w[i] == "version"@,
        forall|j: int| at <= j < i ==> #[trigger] w[j] != "version"@,
    ensures
        word_behind_version(w, at) == w[i + 1],
    decreases i - at,
{
    if at < i {
        lemma_version_at(w, at + 1, i);
    }
}

/// The runtime that is used is the first that ran well; none is where none did.
pub proof fn the_first_runtime_that_runs_is_used(
    runs: Seq<(String, Option<Capture>)>,
    i: int,
)
    requires
        0 <= i <= runs.len(),
        forall|j: int|
            0 <= j < i ==> !((#[trigger] runs[j]).1 is Some && runs[j].1->0.success),
        i < runs.len() ==> runs[i].1 is Some && runs[i].1->0.success,
    ensures
        i < runs.len() ==> first_runtime(runs, 0).0 == runs[i].0@,
        i == runs.len() ==> first_runtime(runs, 0).0.len() == 0 && !deno_found(runs).0,
{
    lemma_runtime_at(runs, 0, i);
}

proof fn lemma_runtime_at(runs: Seq<(String, Option<Capture>)>, at: int, i: int)
    requires
        0 <= at <= i <= runs.len(),
        forall|j: int|
            at <= j < i ==> !((#[trigger] runs[j]).1 is Some && runs[j].1->0.success),
        i < runs.len() ==> runs[i].1 is Some && runs[i].1->0.success,
    ensures
        i < runs.len() ==> first_runtime(runs, at).0 == runs[i].0@,
        i == runs.len() ==> first_runtime(runs, at).0.len() == 0,
    decreases i - at,
{
    if at < i {
        assert(!(runs[at].1 is Some && runs[at].1->0.success));
        lemma_runtime_at(runs, at + 1, i);
    }
}

/// The tools stand in the folder of the program below the home of the user, the
/// binaries in one of its own and the plugins in another.
pub proof fn the_tools_have_their_folders(b: Binaries, home: Seq<char>, windows: bool)
    requires
        is_laid_out(b, home, windows),
    ensures
        joins_in(b.app_dir@, home, ".video_tool_v3"@, windows),
        joins_in(b.bin_dir@, b.app_dir@, "bin"@, windows),
        joins_in(b.plugins_dir@, b.app_dir@, "plugins"@, windows),
        is_tool_in(b.ytdlp_local@, b.bin_dir@, "yt-dlp"@, b.is_windows, windows),
        is_tool_in(b.ffmpeg_local@, b.bin_dir@, "ffmpeg"@, b.is_windows, windows),
        is_tool_in(b.ffprobe_local@, b.bin_dir@, "ffprobe"@, b.is_windows, windows),
        is_tool_in(b.deno_local@, b.bin_dir@, "deno"@, b.is_windows, windows),
{
}

/// A tool that runs and tells no version is told to be there.
pub proof fn a_tool_without_a_version_is_there(c: Option<Capture>, w: Seq<Seq<char>>)
    ensures
        good_text(c) matches Some(s) ==> ytdlp_found(c).0 && (trimmed(s).len() == 0 ==> ytdlp_found(
            c,
        ).1 == "OK"@) && (trimmed(s).len() > 0 ==> ytdlp_found(c).1 == trimmed(s)),
        good_text(c) is None ==> !ytdlp_found(c).0 && ytdlp_found(c).1 == "Not found"@,
        w.len() == 0 ==> word_behind_version(w, 0) == "OK"@,
{
}

/// A runtime is told by its name and its version.
pub proof fn a_runtime_is_told_with_its_version(runs: Seq<(String, Option<Capture>)>)
    ensures
        ({
            let (name, ver) = first_runtime(runs, 0);
            &&& name.len() == 0 ==> deno_found(runs) == (false, "Not found"@)
            &&& name.len() > 0 && !(ver.len() > 0 && within(ver, name)) ==> deno_found(runs) == (
                true,
                name + " "@ + ver,
            )
            &&& name.len() > 0 && ver.len() > 0 && within(ver, name) ==> deno_found(runs) == (
                true,
                ver,
            )
        }),
{
}

/// The list of builds is read under `bin` and the key of the system; a list
/// that cannot be read, or has none for it, is told as such.
pub proof fn builds_are_read_under_their_key(
    r: Result<Vec<(String, String)>, String>,
    text: Seq<char>,
    key: Seq<char>,
)
    requires
        is_download_list(r, text, key),
    ensures
        document_of(text) is None ==> r is Err && r->Err_0@ == "ffbinaries json: "@ + complaint_of(
            text,
        ),
        document_of(text) matches Some(doc) ==> {
            let builds = member(member(doc, "bin"@), key);
            &&& builds is Object ==> r is Ok
            &&& !(builds is Object) ==> r is Err && r->Err_0@ == "No ffmpeg binaries available for "@
                + key + "."@
        },
{
}

/// Why a download is turned away is told with its file, or with what was
/// expected and what came.
pub proof fn what_is_turned_away_is_told_why(sums: Seq<char>, asset: Seq<char>, bytes: Seq<u8>)
    ensures
        digest_from(line_list(sums), asset, 0) is None ==> turned_away(sums, asset, bytes)
            == "no valid SHA2-256SUMS entry for '"@ + asset + "' - yt-dlp download discarded"@,
        digest_from(line_list(sums), asset, 0) matches Some(x) ==> turned_away(sums, asset, bytes)
            == "yt-dlp checksum mismatch - download discarded (expected "@ + first_twelve(x)
            + "..., got "@ + first_twelve(sha256_of(bytes)) + "...)."@,
{
}

/// The addresses that tools and their checksums are fetched from.
pub proof fn tools_are_fetched_from_here()
    ensures
        YTDLP_BASE@ == "https://github.com/yt-dlp/yt-dlp/releases/latest/download/"@,
        SUMS_URL@ == "https://github.com/yt-dlp/yt-dlp/releases/latest/download/SHA2-256SUMS"@,
        DENO_BASE@ == "https://github.com/denoland/deno/releases/latest/download/"@,
        FFBINARIES_URL@ == "https://ffbinaries.com/api/v1/version/latest"@,
{
}

/// A tool is run from the copy of the program where there is one, else by its
/// name.
pub proof fn a_tool_of_ones_own_comes_first(name: Seq<char>, local: Seq<char>)
    ensures
        tool_path(name, local, true) == local,
        tool_path(name, local, false) == name,
{
}

/// What a tool printed is kept, and its errors where it printed nothing.
pub proof fn errors_are_kept_where_nothing_was_printed(out: Seq<char>, err: Seq<char>)
    ensures
        trimmed(out).len() > 0 ==> captured_text(out, err) == out,
        trimmed(out).len() == 0 ==> captured_text(out, err) == err,
{
}

/// The status of each tool is what that tool said. Hardware counts only with
/// ffmpeg, and a browser to pass for only with yt-dlp.
pub proof fn each_tool_speaks_for_itself(
    r: BinaryStatus,
    ytdlp: Option<Capture>,
    ffmpeg: Option<Capture>,
    encoders: Option<Capture>,
    targets: Option<Capture>,
    runs: Seq<(String, Option<Capture>)>,
)
    requires
        is_status(r, ytdlp, ffmpeg, encoders, targets, runs),
    ensures
        r.ytdlp_ok <==> good_text(ytdlp) is Some,
        (r.ffmpeg_ok, r.ffmpeg_version@) == ffmpeg_found(ffmpeg),
        (r.deno_ok, r.deno_version@) == deno_found(runs),
        r.ffmpeg_ok ==> r.hw_backend@ == hw_found(encoders),
        !r.ffmpeg_ok ==> r.hw_backend@ == "cpu"@,
        r.impersonate_ok <==> r.ytdlp_ok && good_text(targets) is Some,
        !r.deno_ok ==> r.js_runtime@.len() == 0,
        r.deno_ok ==> r.js_runtime@ == first_word(r.deno_version@),
{
}

/// The first word is what stands before the first white space.
pub proof fn the_first_word_stands_before_white_space(a: Seq<char>, rest: Seq<char>)
    requires
        is_word(a),
        rest.len() == 0 || is_space(rest[0]),
    ensures
        first_word(a + rest) == a,
{
    lemma_first_word(a, rest);
}

/// A change of the channel is told with what yt-dlp said, and where it said
/// nothing a failure names the channel.
pub proof fn a_change_of_channel_is_told(
    r: Result<String, String>,
    channel: Seq<char>,
    success: bool,
    text: Seq<char>,
)
    requires
        is_update(r, channel, success, text),
    ensures
        success ==> r is Ok && r->Ok_0@ == text,
        !success && text.len() > 0 ==> r is Err && r->Err_0@ == text,
        !success && text.len() == 0 ==> r is Err && r->Err_0@ == "yt-dlp --update-to "@ + channel
            + " failed"@,
{
}

/// A length that is announced is read as it was written.
pub proof fn an_announced_length_is_read(n: u64)
    ensures
        length_in(Some(dec(n as nat))) == n,
        length_in(None) == 0,
{
    parse_undoes_text(n);
}

/// Deno is tried before Node, and the copy of the program before any other.
pub proof fn deno_is_tried_first(local: Seq<char>)
    ensures
        runtimes(local, true) == seq![("deno"@, local), ("deno"@, "deno"@), ("node"@, "node"@)],
        runtimes(local, false) == seq![("deno"@, "deno"@), ("node"@, "node"@)],
{
}

/// Missing checksums are told with why they are missing.
pub proof fn missing_checksums_are_told(error: Seq<char>)
    ensures
        sums_complaint(true, error) == "could not read SHA2-256SUMS ("@ + error
            + ") - yt-dlp download discarded, please retry"@,
        sums_complaint(false, error) == "could not fetch SHA2-256SUMS ("@ + error
            + ") - yt-dlp download discarded, please retry"@,
{
}

/// Without a home of the user the folder is where the program stands.
pub proof fn a_missing_home_is_here(h: Seq<char>)
    ensures
        home_of(Some(h)) == h,
        home_of(None) == "."@,
{
}

/// The folder of the tools is put in front of the search path, with the
/// separator of the system between them, unless it is there already.
pub proof fn the_folder_comes_first_in_the_search_path(dir: Seq<char>, cur: Seq<char>)
    requires
        cur.len() > 0,
    ensures
        !pieces(cur, ";"@).contains(dir) ==> path_with(dir, cur, true) == Some(dir + ";"@ + cur),
        !pieces(cur, ":"@).contains(dir) ==> path_with(dir, cur, false) == Some(dir + ":"@ + cur),
        pieces(cur, ";"@).contains(dir) ==> path_with(dir, cur, true) is None,
        pieces(cur, ":"@).contains(dir) ==> path_with(dir, cur, false) is None,
{
    reveal_strlit(";");
    reveal_strlit(":");
    assert(";"@ =~= seq![';']);
    assert(":"@ =~= seq![':']);
    assert(path_sep(true) =~= ";"@);
    assert(path_sep(false) =~= ":"@);
}

/// A runtime is told by the first line it prints, or by its name where it
/// prints nothing.
pub proof fn a_runtime_is_told_by_its_first_line(name: Seq<char>, a: Seq<char>, b: Seq<char>)
    requires
        !a.contains('\n') && !b.contains('\n'),
        a.len() > 0 && a.last() != '\r',
        b.len() > 0,
        trimmed(a).len() > 0,
    ensures
        runtime_version(name, a + seq!['\n'] + b) == trimmed(a),
        name.len() > 0 && trimmed(name) == name ==> runtime_version(name, Seq::empty()) == name,
{
    a_text_falls_into_its_lines(a, b);
    let e = Seq::<char>::empty();
    lemma_one_piece(e, '\n');
    assert(pieces(e, seq!['\n']) =~= seq![e]);
    assert(line_list(e) =~= seq![]);
}

} // verus!
