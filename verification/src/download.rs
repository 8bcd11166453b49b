//! yt-dlp command building.

use crate::consts::{ANON_NAME_HOSTS, IMPERSONATE_AUTO_HOSTS};
use crate::number::{dec, dec_reads_back};
use crate::path::{
    ext_at, extended_at, joins, joins_in, lemma_named, lemma_no_separator, lemma_plain_name,
    no_separator, path_below, path_extension, path_join, path_of, path_text, path_with_extension,
    plain_name, route_of,
};
use crate::text::{
    any_within, contains_any, is_at, is_digit, lowered, opt_str, opt_text, push_all, push_text,
    same, texts, to_lowercase, trim, trimmed, within,
};
use crate::types::DownloadOpts;
use crate::util::{
    anon_name, anon_number, audio_ext_by_quality, audio_ext_of_quality, escape_outtmpl, escaped,
    free_anon_stem, sound_has_the_extension_of_its_format,
};
use vstd::prelude::*;

verus! {

// ---------------- attempts ----------------

/// How many runs a single download gets: the normal one plus two retries.
pub const MAX_ATTEMPTS: u64 = 3;

/// How a repeated attempt differs from the first one.
///
/// YouTube hands out media URLs that can stop working part-way through the
/// transfer, so a retry is only useful if it extracts fresh ones - and if it
/// keeps what the interrupted attempt already wrote.
#[derive(Clone, Copy, PartialEq, Eq, Structural, Debug)]
pub struct Retry {
    /// Drop the web player clients, whose URLs are the ones that die.
    pub safe_clients: bool,
    /// Keep the partial file even when the user asked to overwrite.
    pub resume: bool,
    /// Fetch the fragments one at a time. Eight parallel range requests on a
    /// URL the CDN is already unhappy with only invite another rejection.
    pub low_concurrency: bool,
}

/// How the very first run is configured - no retry concessions yet.
pub open spec fn first_attempt() -> Retry {
    Retry { safe_clients: false, resume: false, low_concurrency: false }
}

impl Default for Retry {
    fn default() -> (r: Self)
        ensures
            r == first_attempt(),
    {
        Retry { safe_clients: false, resume: false, low_concurrency: false }
    }
}

/// Why a run failed, as far as it changes what the next one should do.
#[derive(Clone, Copy, PartialEq, Eq, Structural, Debug)]
pub enum Failure {
    /// The CDN turned the transfer down (403). The URLs are the problem.
    Rejected,
    /// The connection or the server gave out - the same formats are still fine.
    Flaky,
}

/// The run that follows `prev` after a `kind` failure.
///
/// Re-extracting from the same web clients hands back the same SABR formats,
/// so a rejection goes straight to the clients that still serve plain URLs
/// instead of spending a run on an identical attempt.
pub open spec fn retry_after(prev: Retry, kind: Failure) -> Retry {
    Retry {
        safe_clients: prev.safe_clients || kind == Failure::Rejected,
        resume: true,
        low_concurrency: true,
    }
}

/// The run that follows `prev` after a `kind` failure.
pub fn next_retry(prev: Retry, kind: Failure) -> (r: Retry)
    ensures
        r == retry_after(prev, kind),
{
    Retry {
        safe_clients: prev.safe_clients || kind == Failure::Rejected,
        resume: true,
        low_concurrency: true,
    }
}

/// What this particular run should write, and how hard it should try.
#[derive(Clone, Copy, Debug)]
pub struct Attempt<'a> {
    /// Output template replacing the default one, e.g. a renamed target.
    pub outtmpl: Option<&'a str>,
    pub force_overwrite: bool,
    pub retry: Retry,
}

impl<'a> Default for Attempt<'a> {
    fn default() -> (r: Self)
        ensures
            r.outtmpl is None,
            !r.force_overwrite,
            r.retry == first_attempt(),
    {
        Attempt { outtmpl: None, force_overwrite: false, retry: Retry::default() }
    }
}

// ---------------- the command ----------------

/// A quality that keeps the sound only.
pub open spec fn is_audio_quality(q: Seq<char>) -> bool {
    q == "audio"@ || q == "audio_wav"@ || q == "audio_opus"@
}

/// Whether a quality keeps the sound only.
pub fn audio_quality(q: &str) -> (r: bool)
    ensures
        r == is_audio_quality(q@),
{
    same(q, "audio") || same(q, "audio_wav") || same(q, "audio_opus")
}

/// The formats up to a height, H.264 with AAC first.
pub open spec fn height_formats(q: Seq<char>) -> Seq<char> {
    "bv*[vcodec^=avc1][height<="@ + q + "]+ba[acodec^=mp4a]/bv*[vcodec^=avc1][height<="@ + q
        + "]+ba/bv*[height<="@ + q + "]+ba/bv*+ba/b"@
}

/// The order of formats up to a height.
pub open spec fn height_order(q: Seq<char>) -> Seq<char> {
    "res:"@ + q + ",vcodec:h264,acodec:m4a"@
}

/// Which formats a video quality picks and how it orders them.
pub open spec fn selection_args(q: Seq<char>) -> Seq<Seq<char>> {
    if q == "best_av1"@ {
        seq![
            "-f"@,
            "bv*[vcodec^=av01]+ba/bv*[vcodec^=avc1]+ba[acodec^=mp4a]/bv*[vcodec^=avc1]+ba/bv*+ba/b"@,
            "-S"@,
            "vcodec:av01,res,acodec:m4a"@,
        ]
    } else if q == "best"@ {
        seq![
            "-f"@,
            "bv*[vcodec^=avc1]+ba[acodec^=mp4a]/bv*[vcodec^=avc1]+ba/bv*+ba/b"@,
            "-S"@,
            "vcodec:h264,res,acodec:m4a"@,
        ]
    } else {
        seq!["-f"@, height_formats(q), "-S"@, height_order(q)]
    }
}

/// How the streams of a video are put together.
pub open spec fn merge_args() -> Seq<Seq<char>> {
    seq![
        "--merge-output-format"@,
        "mp4"@,
        "--postprocessor-args"@,
        "Merger:-c:a aac -b:a 192k -ar 48000 -ac 2 -movflags +faststart"@,
        "--postprocessor-args"@,
        "Metadata:-movflags +faststart"@,
        "--postprocessor-args"@,
        "EmbedThumbnail:-movflags +faststart"@,
    ]
}

/// What a quality asks for.
pub open spec fn quality_args(q: Seq<char>) -> Seq<Seq<char>> {
    if q == "audio_wav"@ {
        seq![
            "-x"@,
            "--audio-format"@,
            "wav"@,
            "--postprocessor-args"@,
            "ExtractAudio:-ar 48000 -ac 2 -c:a pcm_s16le"@,
        ]
    } else if q == "audio"@ {
        seq![
            "-x"@,
            "--audio-format"@,
            "mp3"@,
            "--audio-quality"@,
            "0"@,
            "--postprocessor-args"@,
            "ExtractAudio:-codec:a libmp3lame -b:a 320k -ar 44100 -ac 2"@,
        ]
    } else if q == "audio_opus"@ {
        seq!["-x"@, "--audio-format"@, "opus"@, "--audio-quality"@, "0"@]
    } else {
        merge_args() + selection_args(q)
    }
}

fn height_formats_text(q: &str) -> (r: String)
    ensures
        r@ == height_formats(q@),
{
    let mut f = "bv*[vcodec^=avc1][height<=".to_owned();
    f.append(q);
    f.append("]+ba[acodec^=mp4a]/bv*[vcodec^=avc1][height<=");
    f.append(q);
    f.append("]+ba/bv*[height<=");
    f.append(q);
    f.append("]+ba/bv*+ba/b");
    f
}

fn push_selection(out: &mut Vec<String>, q: &str)
    ensures
        texts(final(out)@) == texts(old(out)@) + selection_args(q@),
{
    if same(q, "best_av1") {
        push_all(
            out,
            &[
                "-f",
                "bv*[vcodec^=av01]+ba/bv*[vcodec^=avc1]+ba[acodec^=mp4a]/bv*[vcodec^=avc1]+ba/bv*+ba/b",
                "-S",
                "vcodec:av01,res,acodec:m4a",
            ],
        );
    } else if same(q, "best") {
        push_all(
            out,
            &[
                "-f",
                "bv*[vcodec^=avc1]+ba[acodec^=mp4a]/bv*[vcodec^=avc1]+ba/bv*+ba/b",
                "-S",
                "vcodec:h264,res,acodec:m4a",
            ],
        );
    } else {
        let f = height_formats_text(q);
        let mut s = "res:".to_owned();
        s.append(q);
        s.append(",vcodec:h264,acodec:m4a");
        push_all(out, &["-f", f.as_str(), "-S", s.as_str()]);
    }
    assert(texts(out@) =~= texts(old(out)@) + selection_args(q@));
}

fn push_quality(out: &mut Vec<String>, q: &str)
    ensures
        texts(final(out)@) == texts(old(out)@) + quality_args(q@),
{
    if same(q, "audio_wav") {
        push_all(
            out,
            &[
                "-x",
                "--audio-format",
                "wav",
                "--postprocessor-args",
                "ExtractAudio:-ar 48000 -ac 2 -c:a pcm_s16le",
            ],
        );
    } else if same(q, "audio") {
        push_all(
            out,
            &[
                "-x",
                "--audio-format",
                "mp3",
                "--audio-quality",
                "0",
                "--postprocessor-args",
                "ExtractAudio:-codec:a libmp3lame -b:a 320k -ar 44100 -ac 2",
            ],
        );
    } else if same(q, "audio_opus") {
        push_all(out, &["-x", "--audio-format", "opus", "--audio-quality", "0"]);
    } else {
        push_all(
            out,
            &[
                "--merge-output-format",
                "mp4",
                "--postprocessor-args",
                "Merger:-c:a aac -b:a 192k -ar 48000 -ac 2 -movflags +faststart",
                "--postprocessor-args",
                "Metadata:-movflags +faststart",
                "--postprocessor-args",
                "EmbedThumbnail:-movflags +faststart",
            ],
        );
        assert(texts(out@) =~= texts(old(out)@) + merge_args());
        push_selection(out, q);
    }
    assert(texts(out@) =~= texts(old(out)@) + quality_args(q@));
}

/// The cookies: a file before a browser.
pub open spec fn cookie_args(cookies: Option<Seq<char>>, opts: DownloadOpts) -> Seq<Seq<char>> {
    if opts.cookiefile@.len() > 0 {
        seq!["--cookies"@, opts.cookiefile@]
    } else {
        match cookies {
            Some(c) => seq!["--cookies-from-browser"@, c],
            None => seq![],
        }
    }
}

fn push_cookies(out: &mut Vec<String>, cookies: &Option<String>, opts: &DownloadOpts)
    ensures
        texts(final(out)@) == texts(old(out)@) + cookie_args(opt_text(*cookies), *opts),
{
    if !opts.cookiefile.as_str().is_empty() {
        push_all(out, &["--cookies", opts.cookiefile.as_str()]);
    } else if let Some(c) = cookies {
        push_all(out, &["--cookies-from-browser", c.as_str()]);
    }
    assert(texts(out@) =~= texts(old(out)@) + cookie_args(opt_text(*cookies), *opts));
}

/// What every download is run with, up to where it writes.
///
/// yt-dlp writes its screen output in the code page of the system unless told
/// otherwise, and a title may carry anything.
pub open spec fn transfer_args(opts: DownloadOpts, retry: Retry, tmpl: Seq<char>) -> Seq<
    Seq<char>,
> {
    seq![
        "--newline"@,
        if opts.playlist {
            "--yes-playlist"@
        } else {
            "--no-playlist"@
        },
        "--retries"@,
        "10"@,
        "--fragment-retries"@,
        "10"@,
        "--concurrent-fragments"@,
        if retry.low_concurrency {
            "1"@
        } else {
            "8"@
        },
        "--extractor-retries"@,
        "3"@,
        "--throttled-rate"@,
        "100K"@,
        "--sleep-requests"@,
        "1"@,
        "--no-mtime"@,
        "--encoding"@,
        "utf-8"@,
        "--progress-template"@,
        "download:%(progress._percent_str)s|%(progress._speed_str)s|%(progress._eta_str)s"@,
        "-o"@,
        tmpl,
    ]
}

fn push_transfer(out: &mut Vec<String>, opts: &DownloadOpts, retry: Retry, tmpl: &str)
    ensures
        texts(final(out)@) == texts(old(out)@) + transfer_args(*opts, retry, tmpl@),
{
    let playlist = if opts.playlist {
        "--yes-playlist"
    } else {
        "--no-playlist"
    };
    let fragments = if retry.low_concurrency {
        "1"
    } else {
        "8"
    };
    push_all(
        out,
        &[
            "--newline",
            playlist,
            "--retries",
            "10",
            "--fragment-retries",
            "10",
            "--concurrent-fragments",
            fragments,
            "--extractor-retries",
            "3",
            "--throttled-rate",
            "100K",
            "--sleep-requests",
            "1",
            "--no-mtime",
            "--encoding",
            "utf-8",
            "--progress-template",
            "download:%(progress._percent_str)s|%(progress._speed_str)s|%(progress._eta_str)s",
            "-o",
            tmpl,
        ],
    );
    assert(texts(out@) =~= texts(old(out)@) + transfer_args(*opts, retry, tmpl@));
}

/// The range of a playlist, where one was given.
pub open spec fn items_args(opts: DownloadOpts) -> Seq<Seq<char>> {
    if opts.playlist && trimmed(opts.playlist_items@).len() > 0 {
        seq!["--playlist-items"@, trimmed(opts.playlist_items@)]
    } else {
        seq![]
    }
}

fn push_items(out: &mut Vec<String>, opts: &DownloadOpts)
    ensures
        texts(final(out)@) == texts(old(out)@) + items_args(*opts),
{
    let items = trim(opts.playlist_items.as_str());
    if opts.playlist && !items.as_str().is_empty() {
        push_all(out, &["--playlist-items", items.as_str()]);
    }
    assert(texts(out@) =~= texts(old(out)@) + items_args(*opts));
}

/// The speed limit, where one was given.
pub open spec fn rate_args(opts: DownloadOpts) -> Seq<Seq<char>> {
    if trimmed(opts.rate_limit@).len() > 0 {
        seq!["--limit-rate"@, trimmed(opts.rate_limit@)]
    } else {
        seq![]
    }
}

fn push_rate(out: &mut Vec<String>, opts: &DownloadOpts)
    ensures
        texts(final(out)@) == texts(old(out)@) + rate_args(*opts),
{
    let rate = trim(opts.rate_limit.as_str());
    if !rate.as_str().is_empty() {
        push_all(out, &["--limit-rate", rate.as_str()]);
    }
    assert(texts(out@) =~= texts(old(out)@) + rate_args(*opts));
}

/// Overwriting implies starting anew. On a retry the half-written file is from
/// our own interrupted attempt, so resuming it is right; the later option wins,
/// and overwriting stays on.
pub open spec fn overwrite_args(force: bool, retry: Retry) -> Seq<Seq<char>> {
    if force && retry.resume {
        seq!["--force-overwrites"@, "--continue"@]
    } else if force {
        seq!["--force-overwrites"@]
    } else {
        seq![]
    }
}

fn push_overwrite(out: &mut Vec<String>, force: bool, retry: Retry)
    ensures
        texts(final(out)@) == texts(old(out)@) + overwrite_args(force, retry),
{
    if force {
        push_text(out, "--force-overwrites");
        if retry.resume {
            push_text(out, "--continue");
        }
    }
    assert(texts(out@) =~= texts(old(out)@) + overwrite_args(force, retry));
}

/// Cookies are given, from a browser or from a file.
pub open spec fn has_cookies(cookies: Option<Seq<char>>, opts: DownloadOpts) -> bool {
    cookies is Some || opts.cookiefile@.len() > 0
}

/// The YouTube player clients.
///
/// Unless a PO token is supplied, YouTube pushes the web clients onto SABR
/// streaming: most of their formats come back without a URL, and the few that
/// keep one are bound to a token we do not have, so the CDN starts answering
/// 403 a few percent into the transfer. The default rotation and the VR client
/// still serve plain URLs.
///
/// Where web clients are asked, the default rotation comes first: it picks
/// clients that actually hand out downloadable URLs, and whatever it finds must
/// not be shadowed by a same-numbered SABR format from a web client.
pub open spec fn player_clients(cookies: Option<Seq<char>>, opts: DownloadOpts, retry: Retry) -> Seq<
    char,
> {
    if retry.safe_clients {
        "default,android_vr"@
    } else if opts.potoken {
        "mweb,tv_simply,web_safari,web_embedded,web_creator"@
    } else if has_cookies(cookies, opts) {
        "default,web_safari,web_creator,web_embedded"@
    } else {
        "default,web_safari"@
    }
}

pub open spec fn client_args(cookies: Option<Seq<char>>, opts: DownloadOpts, retry: Retry) -> Seq<
    Seq<char>,
> {
    seq!["--extractor-args"@, "youtube:player_client="@ + player_clients(cookies, opts, retry)]
}

fn push_clients(
    out: &mut Vec<String>,
    cookies: &Option<String>,
    opts: &DownloadOpts,
    retry: Retry,
)
    ensures
        texts(final(out)@) == texts(old(out)@) + client_args(opt_text(*cookies), *opts, retry),
{
    let clients = if retry.safe_clients {
        "default,android_vr"
    } else if opts.potoken {
        "mweb,tv_simply,web_safari,web_embedded,web_creator"
    } else if cookies.is_some() || !opts.cookiefile.as_str().is_empty() {
        "default,web_safari,web_creator,web_embedded"
    } else {
        "default,web_safari"
    };
    let mut arg = "youtube:player_client=".to_owned();
    arg.append(clients);
    push_all(out, &["--extractor-args", arg.as_str()]);
    assert(texts(out@) =~= texts(old(out)@) + client_args(opt_text(*cookies), *opts, retry));
}

/// The plugins and the provider of PO tokens.
pub open spec fn plugin_args(opts: DownloadOpts) -> Seq<Seq<char>> {
    (if opts.plugins_dir@.len() > 0 {
        seq!["--plugin-dirs"@, "default"@, "--plugin-dirs"@, opts.plugins_dir@]
    } else {
        seq![]
    }) + (if trimmed(opts.potoken_url@).len() > 0 {
        seq![
            "--extractor-args"@,
            "youtubepot-bgutilhttp:base_url="@ + trimmed(opts.potoken_url@),
        ]
    } else {
        seq![]
    })
}

fn push_plugins(out: &mut Vec<String>, opts: &DownloadOpts)
    ensures
        texts(final(out)@) == texts(old(out)@) + plugin_args(*opts),
{
    if !opts.plugins_dir.as_str().is_empty() {
        push_all(out, &["--plugin-dirs", "default", "--plugin-dirs", opts.plugins_dir.as_str()]);
    }
    let url = trim(opts.potoken_url.as_str());
    if !url.as_str().is_empty() {
        let mut arg = "youtubepot-bgutilhttp:base_url=".to_owned();
        arg.append(url.as_str());
        push_all(out, &["--extractor-args", arg.as_str()]);
    }
    assert(texts(out@) =~= texts(old(out)@) + plugin_args(*opts));
}

/// What is written into the file. WAV has no container slot for cover art -
/// yt-dlp aborts the whole postprocessing chain if it is asked for one anyway.
pub open spec fn embed_args(q: Seq<char>, opts: DownloadOpts) -> Seq<Seq<char>> {
    if !opts.embed {
        seq![]
    } else if q == "audio_wav"@ {
        seq!["--embed-metadata"@, "--embed-chapters"@]
    } else {
        seq!["--embed-thumbnail"@, "--embed-metadata"@, "--embed-chapters"@]
    }
}

fn push_embed(out: &mut Vec<String>, q: &str, opts: &DownloadOpts)
    ensures
        texts(final(out)@) == texts(old(out)@) + embed_args(q@, *opts),
{
    if opts.embed {
        if !same(q, "audio_wav") {
            push_text(out, "--embed-thumbnail");
        }
        push_all(out, &["--embed-metadata", "--embed-chapters"]);
    }
    assert(texts(out@) =~= texts(old(out)@) + embed_args(q@, *opts));
}

/// The subtitles of a video, English and German unless others are asked for.
pub open spec fn subtitle_args(q: Seq<char>, opts: DownloadOpts) -> Seq<Seq<char>> {
    if opts.subs && !is_audio_quality(q) {
        seq![
            "--write-subs"@,
            "--write-auto-subs"@,
            "--sub-langs"@,
            if opts.subs_lang@.len() == 0 {
                "en,de"@
            } else {
                opts.subs_lang@
            },
            "--embed-subs"@,
            "--convert-subs"@,
            "srt"@,
        ]
    } else {
        seq![]
    }
}

fn push_subtitles(out: &mut Vec<String>, q: &str, opts: &DownloadOpts)
    ensures
        texts(final(out)@) == texts(old(out)@) + subtitle_args(q@, *opts),
{
    if opts.subs && !audio_quality(q) {
        let langs = if opts.subs_lang.as_str().is_empty() {
            "en,de"
        } else {
            opts.subs_lang.as_str()
        };
        push_all(
            out,
            &[
                "--write-subs",
                "--write-auto-subs",
                "--sub-langs",
                langs,
                "--embed-subs",
                "--convert-subs",
                "srt",
            ],
        );
    }
    assert(texts(out@) =~= texts(old(out)@) + subtitle_args(q@, *opts));
}

pub open spec fn sponsor_args(opts: DownloadOpts) -> Seq<Seq<char>> {
    if opts.sponsorblock {
        seq![
            "--sponsorblock-remove"@,
            "sponsor,selfpromo,interaction"@,
            "--sponsorblock-mark"@,
            "all"@,
        ]
    } else {
        seq![]
    }
}

fn push_sponsor(out: &mut Vec<String>, opts: &DownloadOpts)
    ensures
        texts(final(out)@) == texts(old(out)@) + sponsor_args(*opts),
{
    if opts.sponsorblock {
        push_all(
            out,
            &[
                "--sponsorblock-remove",
                "sponsor,selfpromo,interaction",
                "--sponsorblock-mark",
                "all",
            ],
        );
    }
    assert(texts(out@) =~= texts(old(out)@) + sponsor_args(*opts));
}

/// Anti-bot impersonation, where it is asked for or the host calls for it and
/// it is there; `lower` is the URL in lowercase.
pub open spec fn impersonates(opts: DownloadOpts, lower: Seq<char>) -> bool {
    opts.impersonate || (opts.impersonate_available && any_within(lower, IMPERSONATE_AUTO_HOSTS@))
}

pub open spec fn impersonate_args(opts: DownloadOpts, lower: Seq<char>) -> Seq<Seq<char>> {
    if impersonates(opts, lower) {
        seq!["--impersonate"@, "chrome"@]
    } else {
        seq![]
    }
}

fn push_impersonate(out: &mut Vec<String>, opts: &DownloadOpts, lower: &str)
    ensures
        texts(final(out)@) == texts(old(out)@) + impersonate_args(*opts, lower@),
{
    if opts.impersonate || (opts.impersonate_available && contains_any(
        lower,
        &IMPERSONATE_AUTO_HOSTS,
    )) {
        push_all(out, &["--impersonate", "chrome"]);
    }
    assert(texts(out@) =~= texts(old(out)@) + impersonate_args(*opts, lower@));
}

/// The command of a download that writes to `tmpl`; `lower` is the URL in
/// lowercase.
pub open spec fn download_command(
    program: Seq<char>,
    url: Seq<char>,
    lower: Seq<char>,
    tmpl: Seq<char>,
    quality: Seq<char>,
    cookies: Option<Seq<char>>,
    opts: DownloadOpts,
    force: bool,
    retry: Retry,
) -> Seq<Seq<char>> {
    (seq![program] + quality_args(quality) + cookie_args(cookies, opts) + transfer_args(
        opts,
        retry,
        tmpl,
    ) + items_args(opts) + rate_args(opts) + overwrite_args(force, retry) + client_args(
        cookies,
        opts,
        retry,
    ) + plugin_args(opts) + embed_args(quality, opts) + subtitle_args(quality, opts)
        + sponsor_args(opts) + impersonate_args(opts, lower)).push(url)
}

/// Builds the command line of a download that writes to `tmpl`; `lower` is the
/// URL in lowercase.
pub fn download_cmd_to(
    program: &str,
    url: &str,
    lower: &str,
    tmpl: &str,
    quality: &str,
    cookies: &Option<String>,
    opts: &DownloadOpts,
    force: bool,
    retry: Retry,
) -> (r: Vec<String>)
    ensures
        texts(r@) == download_command(
            program@,
            url@,
            lower@,
            tmpl@,
            quality@,
            opt_text(*cookies),
            *opts,
            force,
            retry,
        ),
{
    let mut cmd: Vec<String> = Vec::new();
    push_text(&mut cmd, program);
    assert(texts(cmd@) =~= seq![program@]);
    push_quality(&mut cmd, quality);
    push_cookies(&mut cmd, cookies, opts);
    push_transfer(&mut cmd, opts, retry, tmpl);
    push_items(&mut cmd, opts);
    push_rate(&mut cmd, opts);
    push_overwrite(&mut cmd, force, retry);
    push_clients(&mut cmd, cookies, opts, retry);
    push_plugins(&mut cmd, opts);
    push_embed(&mut cmd, quality, opts);
    push_subtitles(&mut cmd, quality, opts);
    push_sponsor(&mut cmd, opts);
    push_impersonate(&mut cmd, opts, lower);
    push_text(&mut cmd, url);
    cmd
}

// ---------------- where a download writes ----------------

/// A playlist drops dozens of files into the folder, so it gets one of its own.
/// The comma chain picks the first field the extractor actually filled; the
/// default keeps the path from collapsing when it filled none.
pub const PLAYLIST_DIR: &'static str = "%(playlist_title,playlist_id,uploader|Playlist)s";

pub const PLAYLIST_FILE: &'static str = "%(playlist_index)s - %(title).150B.%(ext)s";

pub const SINGLE_FILE: &'static str = "%(title).200B.%(ext)s";

/// `t` is the template of a file in a folder, or in a folder of its own below
/// it for a playlist. The folder is a literal path but the template language
/// treats '%' as a field marker, so a folder like "50% off" would expand into
/// something unrelated unless it is escaped.
pub open spec fn is_default_template(t: Seq<char>, out_dir: Seq<char>, playlist: bool) -> bool {
    if playlist {
        exists|d: Seq<char>, windows: bool| #[trigger]
            joins_in(d, escaped(out_dir), PLAYLIST_DIR@, windows) && joins_in(
                t,
                d,
                PLAYLIST_FILE@,
                windows,
            )
    } else {
        joins(t, escaped(out_dir), SINGLE_FILE@)
    }
}

/// The patterns of the templates name one file or folder each.
proof fn lemma_patterns_are_plain()
    ensures
        plain_name(PLAYLIST_DIR@),
        plain_name(PLAYLIST_FILE@),
        plain_name(SINGLE_FILE@),
{
    reveal_strlit("%(playlist_title,playlist_id,uploader|Playlist)s");
    reveal_strlit("%(playlist_index)s - %(title).150B.%(ext)s");
    reveal_strlit("%(title).200B.%(ext)s");
    let a = PLAYLIST_DIR@;
    let b = PLAYLIST_FILE@;
    let c = SINGLE_FILE@;
    assert(a[0] == '%');
    assert(b[0] == '%');
    assert(c[0] == '%');
    assert forall|i: int| 0 <= i < a.len() implies (#[trigger] a[i]) != '/' && a[i] != '\\' by {}
    assert forall|i: int| 0 <= i < b.len() implies (#[trigger] b[i]) != '/' && b[i] != '\\' by {}
    assert forall|i: int| 0 <= i < c.len() implies (#[trigger] c[i]) != '/' && c[i] != '\\' by {}
}

/// The template of a download that was given none.
pub fn default_template(out_dir: &str, playlist: bool) -> (r: String)
    ensures
        is_default_template(r@, out_dir@, playlist),
{
    proof {
        lemma_patterns_are_plain();
    }
    let base = escape_outtmpl(out_dir);
    if playlist {
        let dir = path_join(&path_of(base.as_str()), PLAYLIST_DIR);
        let file = path_join(&dir, PLAYLIST_FILE);
        let r = path_text(&file);
        assert(joins_in(
            route_of(dir).text,
            base@,
            PLAYLIST_DIR@,
            route_of(dir).windows,
        ));
        r
    } else {
        path_below(base.as_str(), SINGLE_FILE)
    }
}

/// `t` is where an attempt writes: to its own template, or to the default one.
pub open spec fn is_target(
    t: Seq<char>,
    outtmpl: Option<Seq<char>>,
    out_dir: Seq<char>,
    playlist: bool,
) -> bool {
    match outtmpl {
        Some(o) => t == o,
        None => is_default_template(t, out_dir, playlist),
    }
}

/// `cmd` is the command of a download, whatever separator the platform puts
/// into the default template.
pub open spec fn is_download_command(
    cmd: Seq<Seq<char>>,
    program: Seq<char>,
    url: Seq<char>,
    lower: Seq<char>,
    out_dir: Seq<char>,
    quality: Seq<char>,
    cookies: Option<Seq<char>>,
    opts: DownloadOpts,
    attempt: Attempt,
) -> bool {
    exists|t: Seq<char>|
        {
            &&& #[trigger] is_target(t, opt_str(attempt.outtmpl), out_dir, opts.playlist)
            &&& cmd == download_command(
                program,
                url,
                lower,
                t,
                quality,
                cookies,
                opts,
                attempt.force_overwrite,
                attempt.retry,
            )
        }
}

/// Builds the yt-dlp command line as (program, args...).
pub fn build_download_cmd(
    program: &str,
    url: &str,
    out_dir: &str,
    quality: &str,
    cookies: &Option<String>,
    opts: &DownloadOpts,
    attempt: Attempt,
) -> (r: Vec<String>)
    ensures
        is_download_command(
            texts(r@),
            program@,
            url@,
            lowered(url@),
            out_dir@,
            quality@,
            opt_text(*cookies),
            *opts,
            attempt,
        ),
{
    let tmpl = match attempt.outtmpl {
        Some(t) => t.to_owned(),
        None => default_template(out_dir, opts.playlist),
    };
    let lower = to_lowercase(url);
    assert(is_target(tmpl@, opt_str(attempt.outtmpl), out_dir@, opts.playlist));
    download_cmd_to(
        program,
        url,
        lower.as_str(),
        tmpl.as_str(),
        quality,
        cookies,
        opts,
        attempt.force_overwrite,
        attempt.retry,
    )
}

// ---------------- neutral names ----------------

/// The host puts the uploader's name into the title; `lower` is the URL in
/// lowercase.
pub open spec fn is_anon_host(lower: Seq<char>) -> bool {
    any_within(lower, ANON_NAME_HOSTS@)
}

/// Whether the host of a lowercase URL puts the uploader's name into the title.
pub fn anon_host(lower: &str) -> (r: bool)
    ensures
        r == is_anon_host(lower@),
{
    contains_any(lower, &ANON_NAME_HOSTS)
}

/// Whether downloads from a URL get a neutral name.
pub fn needs_anon_name(url: &str) -> (r: bool)
    ensures
        r == is_anon_host(lowered(url@)),
{
    anon_host(to_lowercase(url).as_str())
}

/// An anonymous name is a plain one, with or without the extension field.
proof fn lemma_anon_name(n: nat)
    ensures
        plain_name(anon_name(n) + ".%(ext)s"@),
{
    let name = anon_name(n);
    let field = ".%(ext)s"@;
    reveal_strlit("video-");
    reveal_strlit(".%(ext)s");
    dec_reads_back(n);
    let d = dec(n);
    let v = "video-"@;
    assert(no_separator(d)) by {
        assert forall|c: char| d.contains(c) implies is_digit(c) by {
            let i = choose|i: int| 0 <= i < d.len() && d[i] == c;
            assert(is_digit(d[i]));
        }
    }
    assert forall|i: int| 0 <= i < v.len() implies (#[trigger] v[i]) != '/' && v[i] != '\\' by {}
    assert forall|i: int| 0 <= i < field.len() implies (#[trigger] field[i]) != '/' && field[i]
        != '\\' by {}
    lemma_no_separator(v, d);
    lemma_no_separator(name, field);
    assert((name + field)[0] == 'v');
}

/// For hosts that put the uploader's name into the title, returns the output
/// template for a neutral "video-1234.<ext>" plus that stem for the log.
///
/// The number is drawn once per download so the pre-flight name probe and the
/// download itself agree on the target. The stem is "video-<digits>" and
/// carries no '%', so only the directory needs escaping before the template is
/// joined onto it.
pub fn anon_outtmpl(
    url: &str,
    out_dir: &str,
    taken: &Vec<String>,
    draws: &Vec<u64>,
    now: u64,
) -> (r: Option<(String, String)>)
    ensures
        r is Some == is_anon_host(lowered(url@)),
        match r {
            Some((tmpl, stem)) => {
                &&& stem@ == anon_name(anon_number(texts(taken@), draws@, now as nat))
                &&& joins(tmpl@, escaped(out_dir@), stem@ + ".%(ext)s"@)
            },
            None => true,
        },
{
    if !needs_anon_name(url) {
        return None;
    }
    let stem = free_anon_stem(taken, draws, now);
    let mut name = stem.clone();
    name.append(".%(ext)s");
    proof {
        lemma_anon_name(anon_number(texts(taken@), draws@, now as nat));
    }
    let tmpl = path_below(escape_outtmpl(out_dir).as_str(), name.as_str());
    Some((tmpl, stem))
}

// ---------------- the file a run would write ----------------

/// The same command, but simulated and printing only the resulting file name.
pub open spec fn probe_command(cmd: Seq<Seq<char>>) -> Seq<Seq<char>> {
    cmd.drop_last() + seq![
        "--simulate"@,
        "--no-warnings"@,
        "--print"@,
        "filename"@,
        cmd.last(),
    ]
}

/// Turns the command of a download into one that only prints its target.
pub fn build_probe_cmd(cmd: &Vec<String>) -> (r: Vec<String>)
    requires
        cmd@.len() > 0,
    ensures
        texts(r@) == probe_command(texts(cmd@)),
{
    let last = cmd.len() - 1;
    let ghost all = texts(cmd@);
    let mut out: Vec<String> = Vec::new();
    assert(texts(out@) =~= all.take(0));
    for i in 0..last
        invariant
            last + 1 == cmd@.len(),
            all == texts(cmd@),
            texts(out@) == all.take(i as int),
    {
        push_text(&mut out, cmd[i].as_str());
        assert(texts(out@) =~= all.take(i + 1));
    }
    assert(all.take(last as int) =~= all.drop_last());
    push_all(
        &mut out,
        &["--simulate", "--no-warnings", "--print", "filename", cmd[last].as_str()],
    );
    assert(texts(out@) =~= probe_command(all));
    out
}

/// `r` is `path` with the extension that an audio quality ends up with; `lower`
/// is the one it has, in lowercase.
pub open spec fn is_audio_target(
    r: Seq<char>,
    path: Seq<char>,
    quality: Seq<char>,
    lower: Seq<char>,
    windows: bool,
) -> bool {
    match audio_ext_of_quality(quality) {
        Some(want) => if lower == want {
            r == path
        } else {
            r == extended_at(path, want, windows)
        },
        None => r == path,
    }
}

proof fn lemma_audio_exts(quality: Seq<char>)
    ensures
        audio_ext_of_quality(quality) is Some ==> no_separator(audio_ext_of_quality(quality)->0),
{
    reveal_strlit("mp3");
    reveal_strlit("wav");
    reveal_strlit("opus");
    let a = "mp3"@;
    let b = "wav"@;
    let c = "opus"@;
    assert(a[0] == 'm' && b[0] == 'w' && c[0] == 'o');
    assert forall|i: int| 0 <= i < a.len() implies (#[trigger] a[i]) != '/' && a[i] != '\\' by {}
    assert forall|i: int| 0 <= i < b.len() implies (#[trigger] b[i]) != '/' && b[i] != '\\' by {}
    assert forall|i: int| 0 <= i < c.len() implies (#[trigger] c[i]) != '/' && c[i] != '\\' by {}
}

fn audio_path(p: &std::path::PathBuf, path: &str, quality: &str, lower: &str) -> (r: String)
    requires
        route_of(*p).text == path@,
    ensures
        is_audio_target(r@, path@, quality@, lower@, route_of(*p).windows),
{
    match audio_ext_by_quality(quality) {
        Some(want) => {
            if same(lower, want) {
                path.to_owned()
            } else {
                proof {
                    lemma_audio_exts(quality@);
                }
                path_text(&path_with_extension(p, want))
            }
        },
        None => path.to_owned(),
    }
}

/// Gives a target the extension that its quality ends up with; `lower` is the
/// one it has, in lowercase.
pub fn audio_target(path: &str, quality: &str, lower: &str) -> (r: String)
    ensures
        exists|windows: bool| is_audio_target(r@, path@, quality@, lower@, windows),
{
    audio_path(&path_of(path), path, quality, lower)
}

/// The lowercase extension of a path, empty where it has none.
pub open spec fn lower_ext(path: Seq<char>, windows: bool) -> Seq<char> {
    match ext_at(path, windows) {
        Some(e) => lowered(e),
        None => Seq::empty(),
    }
}

/// `r` is the file that yt-dlp would write, by the line that a probe printed.
pub open spec fn is_probed_in(
    r: Seq<char>,
    line: Seq<char>,
    quality: Seq<char>,
    windows: bool,
) -> bool {
    is_audio_target(r, line, quality, lower_ext(line, windows), windows)
}

/// The same, however the line is read; it stays as it is for a video.
pub open spec fn is_probed(r: Seq<char>, line: Seq<char>, quality: Seq<char>) -> bool {
    &&& exists|windows: bool| is_probed_in(r, line, quality, windows)
    &&& audio_ext_of_quality(quality) is None ==> r == line
}

/// The file yt-dlp *would* write, by the last line of a probe.
pub fn probed_target(lines: &Vec<String>, quality: &str) -> (r: Option<String>)
    ensures
        r is Some == (lines@.len() > 0),
        r is Some ==> is_probed(r->0@, lines@.last()@, quality@),
{
    if lines.len() == 0 {
        return None;
    }
    let last = lines[lines.len() - 1].as_str();
    let p = path_of(last);
    let lower = match path_extension(&p) {
        Some(e) => to_lowercase(e.as_str()),
        None => String::new(),
    };
    let r = audio_path(&p, last, quality, lower.as_str());
    proof {
        let windows = route_of(p).windows;
        assert(lower@ =~= lower_ext(last@, windows));
        assert(is_probed_in(r@, last@, quality@, windows));
    }
    Some(r)
}

// ---------------- laws ----------------

/// The program stands first and the URL last, whatever is asked for.
pub proof fn a_download_ends_with_its_url(
    program: Seq<char>,
    url: Seq<char>,
    lower: Seq<char>,
    tmpl: Seq<char>,
    quality: Seq<char>,
    cookies: Option<Seq<char>>,
    opts: DownloadOpts,
    force: bool,
    retry: Retry,
)
    ensures
        ({
            let cmd = download_command(
                program,
                url,
                lower,
                tmpl,
                quality,
                cookies,
                opts,
                force,
                retry,
            );
            cmd.len() > 1 && cmd[0] == program && cmd.last() == url
        }),
{
}

/// A probe asks for the same thing: its command is that of the download with
/// options put in before the URL, which stays last.
pub proof fn a_probe_asks_for_the_same(cmd: Seq<Seq<char>>)
    requires
        cmd.len() > 1,
    ensures
        cmd.drop_last().is_prefix_of(probe_command(cmd)),
        probe_command(cmd).last() == cmd.last(),
        probe_command(cmd)[0] == cmd[0],
{
    let p = probe_command(cmd);
    assert(p.take(cmd.len() - 1) =~= cmd.drop_last());
}

/// A WAV file never asks for cover art; every other quality does, where cover
/// art is wanted at all.
pub proof fn only_wav_goes_without_cover_art(quality: Seq<char>, opts: DownloadOpts)
    requires
        opts.embed,
    ensures
        embed_args(quality, opts).contains("--embed-thumbnail"@) <==> quality != "audio_wav"@,
{
    reveal_strlit("--embed-thumbnail");
    reveal_strlit("--embed-metadata");
    reveal_strlit("--embed-chapters");
    let e = embed_args(quality, opts);
    assert("--embed-thumbnail"@.len() == 17);
    assert("--embed-metadata"@.len() == 16);
    assert("--embed-chapters"@.len() == 16);
    if quality == "audio_wav"@ {
        assert(e.len() == 2);
        assert(e[0].len() == 16 && e[1].len() == 16);
    } else {
        assert(e[0] == "--embed-thumbnail"@);
    }
}

/// A rejection drops the web clients on the very next run, and once dropped
/// they stay dropped for the rest of the download.
pub proof fn a_rejection_drops_the_web_clients(
    prev: Retry,
    kind: Failure,
    cookies: Option<Seq<char>>,
    opts: DownloadOpts,
)
    requires
        kind == Failure::Rejected || prev.safe_clients,
    ensures
        retry_after(prev, kind).safe_clients,
        !within(player_clients(cookies, opts, retry_after(prev, kind)), "web"@),
{
    let clients = player_clients(cookies, opts, retry_after(prev, kind));
    reveal_strlit("default,android_vr");
    reveal_strlit("web");
    if within(clients, "web"@) {
        let i = choose|i: int| is_at(clients, "web"@, i);
        assert(clients.subrange(i, i + 3)[0] == 'w');
        assert(clients[i] == 'w');
        assert forall|j: int| 0 <= j < clients.len() implies #[trigger] clients[j] != 'w' by {}
    }
}

/// A network hiccup keeps the formats it had.
pub proof fn a_hiccup_keeps_the_clients(
    prev: Retry,
    cookies: Option<Seq<char>>,
    opts: DownloadOpts,
)
    ensures
        player_clients(cookies, opts, retry_after(prev, Failure::Flaky)) == player_clients(
            cookies,
            opts,
            prev,
        ),
{
}

/// Only the first attempt starts from scratch and fetches fragments in
/// parallel: every retry fetches one at a time and resumes what its predecessor
/// left, with the option that resumes behind the one that overwrites.
pub proof fn every_retry_resumes(prev: Retry, kind: Failure, opts: DownloadOpts, tmpl: Seq<char>)
    ensures
        overwrite_args(true, first_attempt()) == seq!["--force-overwrites"@],
        transfer_args(opts, first_attempt(), tmpl)[7] == "8"@,
        overwrite_args(true, retry_after(prev, kind)) == seq![
            "--force-overwrites"@,
            "--continue"@,
        ],
        transfer_args(opts, retry_after(prev, kind), tmpl)[7] == "1"@,
{
}

/// Unless a PO token is at hand, the default rotation is asked before every
/// other client.
pub proof fn the_default_rotation_comes_first(
    cookies: Option<Seq<char>>,
    opts: DownloadOpts,
    retry: Retry,
)
    requires
        !opts.potoken || retry.safe_clients,
    ensures
        "default,"@.is_prefix_of(player_clients(cookies, opts, retry)),
{
    reveal_strlit("default,");
    reveal_strlit("default,android_vr");
    reveal_strlit("default,web_safari,web_creator,web_embedded");
    reveal_strlit("default,web_safari");
    let c = player_clients(cookies, opts, retry);
    assert(c.subrange(0, 8) =~= "default,"@);
}

/// A playlist asks for the whole list and a single video for itself alone; a
/// range is only ever given for a playlist.
pub proof fn only_a_playlist_gets_a_range(opts: DownloadOpts, retry: Retry, tmpl: Seq<char>)
    ensures
        transfer_args(opts, retry, tmpl)[1] == (if opts.playlist {
            "--yes-playlist"@
        } else {
            "--no-playlist"@
        }),
        !opts.playlist ==> items_args(opts).len() == 0,
{
}

/// A file is named by its title, cut to two hundred bytes; in a playlist it
/// stands in the folder of the list, behind its number.
pub proof fn files_are_named_by_their_title(t: Seq<char>, out_dir: Seq<char>)
    ensures
        is_default_template(t, out_dir, false) <==> joins(
            t,
            escaped(out_dir),
            "%(title).200B.%(ext)s"@,
        ),
        is_default_template(t, out_dir, true) <==> exists|d: Seq<char>, windows: bool| #[trigger]
            joins_in(
                d,
                escaped(out_dir),
                "%(playlist_title,playlist_id,uploader|Playlist)s"@,
                windows,
            ) && joins_in(t, d, "%(playlist_index)s - %(title).150B.%(ext)s"@, windows),
{
}

/// A template that was given replaces the default one.
pub proof fn a_given_template_is_used(t: Seq<char>, o: Seq<char>, out_dir: Seq<char>, list: bool)
    ensures
        is_target(t, Some(o), out_dir, list) <==> t == o,
        is_target(t, None, out_dir, list) <==> is_default_template(t, out_dir, list),
{
}

/// A probe prints the name of the file and downloads nothing.
pub proof fn a_probe_prints_the_name_only(cmd: Seq<Seq<char>>)
    requires
        cmd.len() > 1,
    ensures
        ({
            let p = probe_command(cmd);
            let n = cmd.len() - 1;
            &&& p.len() == cmd.len() + 4
            &&& p[n] == "--simulate"@
            &&& p[n + 1] == "--no-warnings"@
            &&& p[n + 2] == "--print"@ && p[n + 3] == "filename"@
        }),
{
}

/// The file of a download of sound has the extension of the sound, and that of
/// a video the one that yt-dlp gave.
pub proof fn a_probed_sound_has_its_extension(
    r: Seq<char>,
    path: Seq<char>,
    q: Seq<char>,
    lower: Seq<char>,
    windows: bool,
)
    ensures
        is_audio_target(r, path, "audio"@, lower, windows) && lower != "mp3"@ ==> r == extended_at(
            path,
            "mp3"@,
            windows,
        ),
        is_audio_target(r, path, "audio_wav"@, lower, windows) && lower != "wav"@ ==> r
            == extended_at(path, "wav"@, windows),
        is_audio_target(r, path, "audio_opus"@, lower, windows) && lower != "opus"@ ==> r
            == extended_at(path, "opus"@, windows),
        is_audio_target(r, path, "audio"@, "mp3"@, windows) ==> r == path,
        q != "audio"@ && q != "audio_wav"@ && q != "audio_opus"@ && is_audio_target(
            r,
            path,
            q,
            lower,
            windows,
        ) ==> r == path,
{
    sound_has_the_extension_of_its_format(q);
}

/// Only files from Instagram get a neutral name.
pub proof fn instagram_files_get_a_neutral_name(lower: Seq<char>)
    ensures
        is_anon_host(lower) <==> within(lower, "instagram.com"@),
{
    assert(ANON_NAME_HOSTS@[0]@ == "instagram.com"@ && ANON_NAME_HOSTS@.len() == 1);
}

/// These three presets are sound, and no other.
pub proof fn three_presets_are_sound(q: Seq<char>)
    ensures
        is_audio_quality(q) <==> q == "audio"@ || q == "audio_wav"@ || q == "audio_opus"@,
        is_audio_quality(q) <==> audio_ext_of_quality(q) is Some,
{
    sound_has_the_extension_of_its_format(q);
}

/// The formats that each quality asks for: the best video in H.264 or in AV1, or
/// up to a height, and from there down to whatever there is.
pub proof fn these_formats_are_asked_for(q: Seq<char>)
    ensures
        selection_args("best_av1"@) == seq![
            "-f"@,
            "bv*[vcodec^=av01]+ba/bv*[vcodec^=avc1]+ba[acodec^=mp4a]/bv*[vcodec^=avc1]+ba/bv*+ba/b"@,
            "-S"@,
            "vcodec:av01,res,acodec:m4a"@,
        ],
        selection_args("best"@) == seq![
            "-f"@,
            "bv*[vcodec^=avc1]+ba[acodec^=mp4a]/bv*[vcodec^=avc1]+ba/bv*+ba/b"@,
            "-S"@,
            "vcodec:h264,res,acodec:m4a"@,
        ],
        q != "best"@ && q != "best_av1"@ ==> selection_args(q) == seq![
            "-f"@,
            "bv*[vcodec^=avc1][height<="@ + q + "]+ba[acodec^=mp4a]/bv*[vcodec^=avc1][height<="@ + q
                + "]+ba/bv*[height<="@ + q + "]+ba/bv*+ba/b"@,
            "-S"@,
            "res:"@ + q + ",vcodec:h264,acodec:m4a"@,
        ],
{
    reveal_strlit("best");
    reveal_strlit("best_av1");
    assert("best"@.len() == 4 && "best_av1"@.len() == 8);
}

/// A video is merged into an MP4 that plays while it loads, with its sound in
/// AAC; what each kind of sound is made of stands beside its format.
pub proof fn a_preset_is_made_this_way(q: Seq<char>)
    ensures
        !is_audio_quality(q) ==> quality_args(q) == seq![
            "--merge-output-format"@,
            "mp4"@,
            "--postprocessor-args"@,
            "Merger:-c:a aac -b:a 192k -ar 48000 -ac 2 -movflags +faststart"@,
            "--postprocessor-args"@,
            "Metadata:-movflags +faststart"@,
            "--postprocessor-args"@,
            "EmbedThumbnail:-movflags +faststart"@,
        ] + selection_args(q),
        quality_args("audio_wav"@) == seq![
            "-x"@,
            "--audio-format"@,
            "wav"@,
            "--postprocessor-args"@,
            "ExtractAudio:-ar 48000 -ac 2 -c:a pcm_s16le"@,
        ],
        quality_args("audio"@) == seq![
            "-x"@,
            "--audio-format"@,
            "mp3"@,
            "--audio-quality"@,
            "0"@,
            "--postprocessor-args"@,
            "ExtractAudio:-codec:a libmp3lame -b:a 320k -ar 44100 -ac 2"@,
        ],
        quality_args("audio_opus"@) == seq![
            "-x"@,
            "--audio-format"@,
            "opus"@,
            "--audio-quality"@,
            "0"@,
        ],
{
    reveal_strlit("audio");
    reveal_strlit("audio_wav");
    reveal_strlit("audio_opus");
    assert("audio"@.len() == 5 && "audio_wav"@.len() == 9 && "audio_opus"@.len() == 10);
}

/// The file of a download is the one that yt-dlp named, with the extension of
/// the sound where sound was asked for.
pub proof fn a_named_file_keeps_its_stem(
    r: Seq<char>,
    stem: Seq<char>,
    e: Seq<char>,
    q: Seq<char>,
)
    requires
        stem.len() > 0,
        !e.contains('.'),
        plain_name(stem.push('.') + e),
        is_probed(r, stem.push('.') + e, q),
    ensures
        q == "audio"@ && lowered(e) != "mp3"@ ==> r == stem.push('.') + "mp3"@,
        q == "audio_wav"@ && lowered(e) != "wav"@ ==> r == stem.push('.') + "wav"@,
        q == "audio_opus"@ && lowered(e) != "opus"@ ==> r == stem.push('.') + "opus"@,
        q != "audio"@ && q != "audio_wav"@ && q != "audio_opus"@ ==> r == stem.push('.') + e,
{
    let line = stem.push('.') + e;
    sound_has_the_extension_of_its_format(q);
    let windows = choose|windows: bool| is_probed_in(r, line, q, windows);
    lemma_plain_name(line, windows);
    lemma_named(stem, e);
    reveal_strlit("mp3");
    reveal_strlit("wav");
    reveal_strlit("opus");
}

} // verus!
