//! What the tabs ask for: their fields, what is wrong with them and what a run
//! is started with.

use crate::config::{flag_setting, text_setting, Config};
use crate::consts::{clean_playlist_items, is_rate, is_rate_limit, playlist_range};
use crate::convert::{section_len, start_or_zero, ConvertParams};
use crate::i18n::{filled, phrase, t, tf, Lang};
use crate::json::Tree;
use crate::number::{clamp, clamped};
use crate::path::{
    beside, ext_at, ext_in, extended_at, file_name_at, is_known, is_sep, lemma_beside,
    lemma_is_plain, lemma_name, lemma_parts_of, name_in, no_separator, parent_at, path_extension,
    path_file_stem, path_of, path_text, path_with_extension, path_with_file_name, plain_name,
    renamed_at, route_of, stem_at,
};
use crate::text::{
    lemma_trimmed_end, lemma_trimmed_start, lowered, one_of, opt_str, opt_text, same, spaces, strs,
    to_lowercase, trim, trim_end_of, trimmed, trimmed_end, trimmed_start,
};
use crate::types::DownloadOpts;
use crate::util::{
    a_sanitized_name_stays_in_its_directory, audio_ext_of_codec, bytes_text, clock_text,
    convert_audio_ext, first_part, format_bytes, format_clock, sanitize_filename, sanitized,
    sound_has_the_extension_of_its_format, strip_media_ext, tidied, whole_seconds,
    without_media_ext,
};
use vstd::prelude::*;

verus! {

// ---------------- the Download tab ----------------

/// The fields of the Download tab.
#[derive(Debug)]
pub struct DownloadForm {
    pub output: String,
    pub quality: String,
    pub cookies: String,
    pub cookiefile: String,
    pub conflict: String,
    pub impersonate: bool,
    pub sponsorblock: bool,
    pub embed: bool,
    pub subs: bool,
    pub subs_lang: String,
    pub potoken: bool,
    pub potoken_url: String,
    pub playlist: bool,
    pub playlist_items: String,
    pub rate_limit: String,
}

/// The fields as the settings have them, each with its default.
pub open spec fn is_read_from(
    f: DownloadForm,
    s: Map<Seq<char>, Tree>,
    downloads: Seq<char>,
) -> bool {
    &&& f.output@ == text_setting(s, "last_output_folder"@, downloads)
    &&& f.quality@ == text_setting(s, "last_quality"@, "best"@)
    &&& f.cookies@ == text_setting(s, "last_cookies"@, "none"@)
    &&& f.cookiefile@ == text_setting(s, "cookies_file"@, ""@)
    &&& f.conflict@ == text_setting(s, "conflict_mode"@, "ask"@)
    &&& f.impersonate == flag_setting(s, "impersonate"@, false)
    &&& f.sponsorblock == flag_setting(s, "sponsorblock"@, false)
    &&& f.embed == flag_setting(s, "embed"@, true)
    &&& f.subs == flag_setting(s, "subs"@, false)
    &&& f.subs_lang@ == text_setting(s, "subs_lang"@, "en,de"@)
    &&& f.potoken == flag_setting(s, "potoken"@, false)
    &&& f.potoken_url@ == text_setting(s, "potoken_url"@, ""@)
    &&& f.playlist == flag_setting(s, "playlist"@, false)
    &&& f.playlist_items@ == text_setting(s, "playlist_items"@, ""@)
    &&& f.rate_limit@ == text_setting(s, "rate_limit"@, ""@)
}

/// What keeps a run from starting, whichever URL is next; `is_file` says
/// whether the cookie file is there. An unparseable limit would reach yt-dlp as
/// a bare argument, so it is caught here rather than turning into a confusing
/// extractor error.
pub open spec fn download_problem(f: DownloadForm, ytdlp_ok: bool, is_file: bool) -> Option<
    Seq<char>,
> {
    if trimmed(f.output@).len() == 0 {
        Some("toast.need_folder"@)
    } else if !ytdlp_ok {
        Some("toast.no_ytdlp"@)
    } else if f.cookies@ == "cookiefile"@ && (trimmed(f.cookiefile@).len() == 0 || !is_file) {
        Some("toast.no_cookiefile"@)
    } else if trimmed(f.rate_limit@).len() > 0 && !is_rate(trimmed(f.rate_limit@)) {
        Some("toast.bad_rate"@)
    } else {
        None
    }
}

/// The languages of the subtitles, with a default where none are named.
pub open spec fn subtitle_langs(text: Seq<char>) -> Seq<char> {
    if trimmed(text).len() == 0 {
        "en,de"@
    } else {
        trimmed(text)
    }
}

/// `o` is what the fields ask the worker for.
pub open spec fn are_options_of(
    o: DownloadOpts,
    f: DownloadForm,
    impersonate_ok: bool,
    plugins_dir: Seq<char>,
) -> bool {
    &&& o.impersonate == (f.impersonate && impersonate_ok)
    &&& o.impersonate_available == impersonate_ok
    &&& o.sponsorblock == f.sponsorblock
    &&& o.embed == f.embed
    &&& o.subs == f.subs
    &&& o.subs_lang@ == subtitle_langs(f.subs_lang@)
    &&& o.cookiefile@ == (if f.cookies@ == "cookiefile"@ {
        trimmed(f.cookiefile@)
    } else {
        Seq::empty()
    })
    &&& o.potoken == f.potoken
    &&& o.potoken_url@ == trimmed(f.potoken_url@)
    &&& o.plugins_dir@ == plugins_dir
    &&& o.conflict@ == f.conflict@
    &&& o.playlist == f.playlist
    &&& o.playlist_items@ == playlist_range(f.playlist_items@)
    &&& o.rate_limit@ == trimmed(f.rate_limit@)
}

/// The browser whose cookies are asked for.
pub open spec fn browser_of(cookies: Seq<char>) -> Option<Seq<char>> {
    if cookies == "none"@ || cookies == "cookiefile"@ {
        None
    } else {
        Some(cookies)
    }
}

impl DownloadForm {
    /// The fields as the settings have them; `downloads` is the folder that
    /// downloads go to by default.
    pub fn read(config: &Config, downloads: &str) -> (r: DownloadForm)
        ensures
            is_read_from(r, config.settings(), downloads@),
    {
        DownloadForm {
            output: config.get_str("last_output_folder", downloads),
            quality: config.get_str("last_quality", "best"),
            cookies: config.get_str("last_cookies", "none"),
            cookiefile: config.get_str("cookies_file", ""),
            conflict: config.get_str("conflict_mode", "ask"),
            impersonate: config.get_bool("impersonate", false),
            sponsorblock: config.get_bool("sponsorblock", false),
            embed: config.get_bool("embed", true),
            subs: config.get_bool("subs", false),
            subs_lang: config.get_str("subs_lang", "en,de"),
            potoken: config.get_bool("potoken", false),
            potoken_url: config.get_str("potoken_url", ""),
            playlist: config.get_bool("playlist", false),
            playlist_items: config.get_str("playlist_items", ""),
            rate_limit: config.get_str("rate_limit", ""),
        }
    }

    /// What keeps a run from starting, as the text key of the complaint.
    pub fn problem(&self, ytdlp_ok: bool, is_file: bool) -> (r: Option<&'static str>)
        ensures
            opt_str(r) == download_problem(*self, ytdlp_ok, is_file),
    {
        if trim(self.output.as_str()).as_str().is_empty() {
            return Some("toast.need_folder");
        }
        if !ytdlp_ok {
            return Some("toast.no_ytdlp");
        }
        if same(self.cookies.as_str(), "cookiefile") {
            if trim(self.cookiefile.as_str()).as_str().is_empty() || !is_file {
                return Some("toast.no_cookiefile");
            }
        }
        if !trim(self.rate_limit.as_str()).as_str().is_empty() && !is_rate_limit(
            self.rate_limit.as_str(),
        ) {
            return Some("toast.bad_rate");
        }
        None
    }

    /// What the fields ask the worker for.
    pub fn options(&self, impersonate_ok: bool, plugins_dir: &str) -> (r: DownloadOpts)
        ensures
            are_options_of(r, *self, impersonate_ok, plugins_dir@),
    {
        let langs = trim(self.subs_lang.as_str());
        let subs_lang = if langs.as_str().is_empty() {
            "en,de".to_owned()
        } else {
            langs
        };
        let cookiefile = if same(self.cookies.as_str(), "cookiefile") {
            trim(self.cookiefile.as_str())
        } else {
            String::new()
        };
        assert(cookiefile@ =~= (if self.cookies@ == "cookiefile"@ {
            trimmed(self.cookiefile@)
        } else {
            Seq::empty()
        }));
        DownloadOpts {
            impersonate: self.impersonate && impersonate_ok,
            impersonate_available: impersonate_ok,
            sponsorblock: self.sponsorblock,
            embed: self.embed,
            subs: self.subs,
            subs_lang,
            cookiefile,
            potoken: self.potoken,
            potoken_url: trim(self.potoken_url.as_str()),
            plugins_dir: plugins_dir.to_owned(),
            conflict: self.conflict.clone(),
            playlist: self.playlist,
            playlist_items: clean_playlist_items(self.playlist_items.as_str()),
            rate_limit: trim(self.rate_limit.as_str()),
        }
    }

    /// The browser whose cookies are asked for.
    pub fn browser(&self) -> (r: Option<String>)
        ensures
            opt_text(r) == browser_of(self.cookies@),
    {
        if same(self.cookies.as_str(), "none") || same(self.cookies.as_str(), "cookiefile") {
            None
        } else {
            Some(self.cookies.clone())
        }
    }
}

// ---------------- the Convert tab ----------------

/// The fields of the Convert tab, but for the two trim fields.
#[derive(Debug)]
pub struct ConvertForm {
    pub input: String,
    pub output: String,
    pub codec: String,
    pub hw: String,
    pub bitrate_mode: String,
    pub crf: i32,
    pub custom_br: i32,
    pub preserve_color: bool,
}

/// What keeps a conversion from starting before anything of it is touched;
/// `is_there` says whether the input is.
pub open spec fn input_problem(f: ConvertForm, is_there: bool) -> Option<Seq<char>> {
    if trimmed(f.input@).len() == 0 || trimmed(f.output@).len() == 0 {
        Some("toast.need_io"@)
    } else if !is_there {
        Some("toast.no_input"@)
    } else {
        None
    }
}

/// What keeps a conversion from starting once the output is settled. ffmpeg
/// opens the output before it finishes reading the input, so an in-place
/// conversion would truncate the source.
pub open spec fn output_problem(is_same: bool, ffmpeg_ok: bool) -> Option<Seq<char>> {
    if is_same {
        Some("toast.same_io"@)
    } else if !ffmpeg_ok {
        Some("toast.no_ffmpeg"@)
    } else {
        None
    }
}

/// What keeps a conversion from starting once the output is settled; `is_same`
/// says whether it is the input.
pub fn check_output(is_same: bool, ffmpeg_ok: bool) -> (r: Option<&'static str>)
    ensures
        opt_str(r) == output_problem(is_same, ffmpeg_ok),
{
    if is_same {
        Some("toast.same_io")
    } else if !ffmpeg_ok {
        Some("toast.no_ffmpeg")
    } else {
        None
    }
}

/// `r` is the output of a codec: one that makes audio files has its own
/// extension, whatever was typed. `ext` is the lowercase extension of what was.
pub open spec fn is_output(
    r: Seq<char>,
    output: Seq<char>,
    ext: Option<Seq<char>>,
    codec: Seq<char>,
    windows: bool,
) -> bool {
    match audio_ext_of_codec(codec) {
        Some(want) => if ext == Some(want) {
            r == output
        } else {
            r == extended_at(output, want, windows)
        },
        None => r == output,
    }
}

fn output_at(
    p: &std::path::PathBuf,
    output: &str,
    ext: Option<&str>,
    codec: &str,
) -> (r: String)
    requires
        route_of(*p).text == output@,
    ensures
        is_output(r@, output@, opt_str(ext), codec@, route_of(*p).windows),
{
    match convert_audio_ext(codec) {
        Some(want) => {
            if let Some(e) = ext {
                if same(e, want) {
                    return output.to_owned();
                }
            }
            proof {
                reveal_strlit("mp3");
                reveal_strlit("wav");
                lemma_is_plain("mp3"@);
                lemma_is_plain("wav"@);
            }
            path_text(&path_with_extension(p, want))
        },
        None => output.to_owned(),
    }
}

/// The output of a codec; `ext` is the lowercase extension of what was typed.
pub fn output_with_ext(output: &str, ext: Option<&str>, codec: &str) -> (r: String)
    ensures
        exists|windows: bool| is_output(r@, output@, opt_str(ext), codec@, windows),
{
    output_at(&path_of(output), output, ext, codec)
}

/// `r` is the output that a codec writes, where what was typed is read in one
/// way.
pub open spec fn is_output_in(
    r: Seq<char>,
    typed: Seq<char>,
    codec: Seq<char>,
    windows: bool,
) -> bool {
    is_output(r, typed, lower_ext(ext_at(typed, windows)), codec, windows)
}

/// The lowercase extension of a path, where it has one.
pub open spec fn lower_ext(ext: Option<Seq<char>>) -> Option<Seq<char>> {
    match ext {
        Some(e) => Some(lowered(e)),
        None => None,
    }
}

/// What the form asks of a conversion.
pub open spec fn are_params_of(
    r: ConvertParams,
    f: ConvertForm,
    bounds: (Option<i64>, Option<i64>),
) -> bool {
    &&& r.codec_key@ == f.codec@
    &&& r.hw_setting@ == f.hw@
    &&& r.crf == f.crf
    &&& r.use_custom == (f.bitrate_mode@ == "custom"@)
    &&& r.custom_br == f.custom_br
    &&& r.preserve_color == f.preserve_color
    &&& r.trim_start == bounds.0
    &&& r.trim_end == bounds.1
}

/// The size that is shown beside the form: only for a video with a bitrate of
/// its own, whose section is known.
pub open spec fn estimate_of(
    f: ConvertForm,
    total: int,
    bounds: Option<(Option<i64>, Option<i64>)>,
) -> Option<Seq<char>> {
    match bounds {
        Some(b) => if f.bitrate_mode@ == "custom"@ && audio_ext_of_codec(f.codec@) is None {
            Some(bytes_text(estimate(f.custom_br as int, kept_nanos(total, b))))
        } else {
            None
        },
        None => None,
    }
}

impl ConvertForm {
    /// What keeps a conversion from starting before anything of it is touched,
    /// as the text key of the complaint.
    pub fn check_input(&self, is_there: bool) -> (r: Option<&'static str>)
        ensures
            opt_str(r) == input_problem(*self, is_there),
    {
        if trim(self.input.as_str()).as_str().is_empty() || trim(
            self.output.as_str(),
        ).as_str().is_empty() {
            Some("toast.need_io")
        } else if !is_there {
            Some("toast.no_input")
        } else {
            None
        }
    }

    /// The output that the codec writes.
    pub fn output_path(&self) -> (r: String)
        ensures
            exists|windows: bool|
                is_output_in(r@, trimmed(self.output@), self.codec@, windows),
            audio_ext_of_codec(self.codec@) is None ==> r@ == trimmed(self.output@),
    {
        let out = trim(self.output.as_str());
        let p = path_of(out.as_str());
        let r = match path_extension(&p) {
            Some(e) => {
                let lower = to_lowercase(e.as_str());
                output_at(&p, out.as_str(), Some(lower.as_str()), self.codec.as_str())
            },
            None => output_at(&p, out.as_str(), None, self.codec.as_str()),
        };
        assert(is_output_in(r@, out@, self.codec@, route_of(p).windows));
        r
    }

    /// What the worker is started with.
    pub fn params(&self, bounds: (Option<i64>, Option<i64>)) -> (r: ConvertParams)
        ensures
            are_params_of(r, *self, bounds),
    {
        ConvertParams {
            codec_key: self.codec.clone(),
            hw_setting: self.hw.clone(),
            crf: self.crf,
            use_custom: same(self.bitrate_mode.as_str(), "custom"),
            custom_br: self.custom_br,
            preserve_color: self.preserve_color,
            trim_start: bounds.0,
            trim_end: bounds.1,
        }
    }

    /// Rough size of what a custom-bitrate run will write, in bytes, where the
    /// source is `total` nanoseconds long.
    ///
    /// Only the custom-bitrate mode can be estimated at all - CRF decides its
    /// rate from the picture, which nothing here can predict.
    pub fn output_estimate(&self, total: i64, bounds: Option<(Option<i64>, Option<i64>)>) -> (r: Option<
        String,
    >)
        ensures
            opt_text(r) == estimate_of(*self, total as int, bounds),
    {
        if !same(self.bitrate_mode.as_str(), "custom") || convert_audio_ext(
            self.codec.as_str(),
        ).is_some() {
            return None;
        }
        match bounds {
            Some(b) => {
                let nanos = section_nanos(total, b);
                Some(format_bytes(estimate_bytes(self.custom_br, nanos)))
            },
            None => None,
        }
    }
}

/// How much of a source a section keeps, in nanoseconds.
pub open spec fn kept_nanos(total: int, bounds: (Option<i64>, Option<i64>)) -> nat {
    let asked = start_or_zero(bounds.0);
    let start = if asked < total {
        asked
    } else {
        total
    };
    let n = match bounds.1 {
        Some(e) => e - start,
        None => total - start,
    };
    if n < 0 {
        0
    } else {
        n as nat
    }
}

fn section_nanos(total: i64, bounds: (Option<i64>, Option<i64>)) -> (r: u128)
    ensures
        r == kept_nanos(total as int, bounds),
        r <= 0x1_0000_0000_0000_0000,
{
    let asked: i64 = match bounds.0 {
        Some(s) => s,
        None => 0,
    };
    let start: i64 = if asked < total {
        asked
    } else {
        total
    };
    let end: i64 = match bounds.1 {
        Some(e) => e,
        None => total,
    };
    let n: i128 = end as i128 - start as i128;
    if n < 0 {
        0
    } else {
        n as u128
    }
}

/// The bytes of so many megabits a second, plus the 192 kbit/s the profiles use
/// for audio, over a time; at most as many as can be counted.
pub open spec fn estimate(mbit: int, nanos: nat) -> nat {
    let rate = mbit * 1_000_000 + 192_000;
    let bytes = rate * nanos / 8_000_000_000;
    if rate <= 0 {
        0
    } else if bytes > u64::MAX {
        u64::MAX as nat
    } else {
        bytes as nat
    }
}

/// The bytes of so many megabits a second over a time.
pub fn estimate_bytes(mbit: i32, nanos: u128) -> (r: u64)
    requires
        nanos <= 0x1_0000_0000_0000_0000,
    ensures
        r == estimate(mbit as int, nanos as nat),
{
    let rate: i64 = mbit as i64 * 1_000_000 + 192_000;
    if rate <= 0 {
        return 0;
    }
    let rate_bits: u128 = rate as u128;
    assert(rate_bits * nanos <= 0x8_0000_0000_0000 * 0x1_0000_0000_0000_0000) by (nonlinear_arith)
        requires
            rate_bits <= 0x8_0000_0000_0000,
            nanos <= 0x1_0000_0000_0000_0000,
    ;
    let bytes: u128 = rate_bits * nanos / 8_000_000_000;
    if bytes > u64::MAX as u128 {
        u64::MAX
    } else {
        bytes as u64
    }
}

// ---------------- trimming ----------------

/// What a trim field holds. It is kept as text so a half-finished entry is not
/// read as a cut; it only becomes a number when the run starts.
#[derive(Clone, Copy, Debug)]
pub enum TrimField {
    /// No bound.
    Empty,
    /// Something unreadable, so a typo cannot quietly turn into a cut at second
    /// zero.
    Bad,
    /// A bound in nanoseconds.
    At(i64),
}

/// The bound that a readable field sets.
pub open spec fn bound_of(f: TrimField) -> Option<i64> {
    match f {
        TrimField::At(n) => Some(n),
        _ => None,
    }
}

/// The bounds that two fields set, if they make sense: the end is after the
/// start.
pub open spec fn bounds_of(start: TrimField, end: TrimField) -> Option<
    (Option<i64>, Option<i64>),
> {
    let a = bound_of(start);
    let b = bound_of(end);
    if start is Bad || end is Bad {
        None
    } else if b is Some && b->0 <= start_or_zero(a) {
        None
    } else {
        Some((a, b))
    }
}

/// The typed trim bounds, or `None` when they make no sense.
///
/// An empty field is "no bound"; a field with something unreadable in it
/// is an error.
pub fn trim_bounds(start: TrimField, end: TrimField) -> (r: Option<(Option<i64>, Option<i64>)>)
    ensures
        r == bounds_of(start, end),
{
    let a: Option<i64> = match start {
        TrimField::At(n) => Some(n),
        TrimField::Bad => return None,
        TrimField::Empty => None,
    };
    let b: Option<i64> = match end {
        TrimField::At(n) => Some(n),
        TrimField::Bad => return None,
        TrimField::Empty => None,
    };
    if let Some(e) = b {
        let s: i64 = match a {
            Some(s) => s,
            None => 0,
        };
        if e <= s {
            return None;
        }
    }
    Some((a, b))
}

/// What the trim fields currently mean, including when they say nothing usable
/// yet.
pub open spec fn trim_note(lang: Lang, bounds: Option<(Option<i64>, Option<i64>)>) -> Seq<char> {
    match bounds {
        None => phrase(lang, "cv.trim_bad"@),
        Some((None, None)) => Seq::empty(),
        Some((start, Some(e))) => filled(
            phrase(lang, "cv.trim_active"@),
            seq![clock_text(whole_seconds(clamped(e - start_or_zero(start))))],
        ),
        Some((start, None)) => filled(
            phrase(lang, "cv.trim_active"@),
            seq![
                clock_text(whole_seconds(start_or_zero(start))) + " -> "@ + phrase(
                    lang,
                    "cv.trim_end_of_file"@,
                ),
            ],
        ),
    }
}

/// What the trim fields currently mean.
pub fn trim_text(lang: Lang, bounds: Option<(Option<i64>, Option<i64>)>) -> (r: String)
    ensures
        r@ == trim_note(lang, bounds),
{
    match bounds {
        None => t(lang, "cv.trim_bad").to_owned(),
        Some((None, None)) => String::new(),
        Some((start, end)) => {
            let from: i64 = match start {
                Some(s) => s,
                None => 0,
            };
            let span = match end {
                Some(e) => {
                    let wide: i128 = e as i128 - from as i128;
                    format_clock(clamp(wide))
                },
                None => {
                    let mut out = format_clock(from);
                    out.append(" -> ");
                    out.append(t(lang, "cv.trim_end_of_file"));
                    out
                },
            };
            let args = [span.as_str()];
            let r = tf(lang, "cv.trim_active", &args);
            assert(strs(args@) =~= seq![span@]);
            r
        },
    }
}

// ---------------- names ----------------

/// The name that a converted file is offered.
pub open spec fn converted_name(stem: Seq<char>) -> Seq<char> {
    stem + "_converted.mp4"@
}

/// `r` is the output that is offered for an input that is read in one way.
pub open spec fn is_converted_in(r: Seq<char>, input: Seq<char>, windows: bool) -> bool {
    r == renamed_at(
        input,
        converted_name(
            match stem_at(input, windows) {
                Some(s) => s,
                None => Seq::empty(),
            },
        ),
        windows,
    )
}

/// The output that is offered for an input: beside it, under a name of its own.
pub fn converted_path(input: &str) -> (r: String)
    ensures
        exists|windows: bool| is_converted_in(r@, input@, windows),
{
    let p = path_of(input);
    let mut name = match path_file_stem(&p) {
        Some(s) => s,
        None => String::new(),
    };
    name.append("_converted.mp4");
    let r = path_text(&path_with_file_name(&p, name.as_str()));
    assert(is_converted_in(r@, input@, route_of(p).windows));
    r
}

/// The name that a typed one comes to: without a media extension, so the real
/// container decides it, and without points and spaces at its end.
pub open spec fn bare_name(clean: Seq<char>) -> Seq<char> {
    trimmed_end(trimmed(without_media_ext(clean)), one_of(seq!['.', ' ']))
}

/// A name with the extension of the file it replaces.
pub open spec fn named_like(name: Seq<char>, ext: Option<Seq<char>>) -> Seq<char> {
    match ext {
        Some(e) => name.push('.') + e,
        None => name,
    }
}

/// `r` is where a file goes under another name, where the target is read in one
/// way.
pub open spec fn is_renamed_in(
    r: Seq<char>,
    name: Seq<char>,
    target: Seq<char>,
    windows: bool,
) -> bool {
    r == renamed_at(target, named_like(name, ext_at(target, windows)), windows)
}

/// `r` is where a file goes under another name, with the extension of the target
/// and beside it.
pub open spec fn is_named_beside(r: Seq<char>, name: Seq<char>, target: Seq<char>) -> bool {
    exists|windows: bool| is_renamed_in(r, name, target, windows)
}

fn named_beside(name: String, target: &str) -> (r: String)
    ensures
        is_named_beside(r@, name@, target@),
{
    let mut full = name;
    let p = path_of(target);
    if let Some(e) = path_extension(&p) {
        full.push('.');
        full.append(e.as_str());
    }
    let r = path_text(&path_with_file_name(&p, full.as_str()));
    assert(is_renamed_in(r@, name@, target@, route_of(p).windows));
    r
}

/// `r` is where a file goes under another name: beside the target, with the
/// same extension; an error where nothing is left of the name. `clean` is the
/// name without what no file name may hold.
pub open spec fn is_renamed(
    r: Result<String, &'static str>,
    clean: Seq<char>,
    target: Seq<char>,
) -> bool {
    if bare_name(clean).len() == 0 {
        r is Err && r->Err_0@ == "conflict.need_name"@
    } else {
        r is Ok && is_named_beside(r->Ok_0@, bare_name(clean), target)
    }
}

proof fn lemma_bare_name(clean: Seq<char>)
    requires
        clean.len() == 0 || plain_name(clean),
    ensures
        forall|c: char| bare_name(clean).contains(c) ==> clean.contains(c),
        no_separator(bare_name(clean)),
        bare_name(clean).len() > 0 ==> bare_name(clean).last() != '.',
{
    let w = without_media_ext(clean);
    let t1 = trimmed_start(w, spaces());
    let t2 = trimmed(w);
    let drop = one_of(seq!['.', ' ']);
    let n = bare_name(clean);
    if clean.len() > 0 {
        lemma_parts_of(clean);
    }
    assert(w.len() <= clean.len() && w =~= clean.take(w.len() as int));
    lemma_trimmed_start(w, spaces());
    lemma_trimmed_end(t1, spaces());
    lemma_trimmed_end(t2, drop);
    assert forall|c: char| n.contains(c) implies clean.contains(c) by {
        let i = choose|i: int| 0 <= i < n.len() && n[i] == c;
        assert(n[i] == t2[i]);
        assert(t2[i] == t1[i]);
        assert(t1[i] == w[i + (w.len() - t1.len())]);
        assert(clean[i + (w.len() - t1.len())] == c);
    }
    if n.len() > 0 {
        assert(!drop(n.last()));
        assert(seq!['.', ' '][0] == '.');
    }
}

/// Where a file goes under the name `clean`; an empty name or a plain one.
pub fn rename_clean(clean: &str, target: &str) -> (r: Result<String, &'static str>)
    requires
        clean@.len() == 0 || plain_name(clean@),
    ensures
        is_renamed(r, clean@, target@),
{
    proof {
        lemma_bare_name(clean@);
    }
    if clean.is_empty() {
        assert(bare_name(clean@).len() > 0 ==> clean@.contains(bare_name(clean@)[0]));
        return Err("conflict.need_name");
    }
    let set = ['.', ' '];
    assert(set@ =~= seq!['.', ' ']);
    let stem = strip_media_ext(clean);
    let name = trim_end_of(trim(stem.as_str()).as_str(), &set);
    if name.as_str().is_empty() {
        return Err("conflict.need_name");
    }
    assert(name@ == bare_name(clean@));
    Ok(named_beside(name, target))
}

/// Where a file goes under the name that was typed for it.
pub fn rename_target(typed: &str, target: &str) -> (r: Result<String, &'static str>)
    ensures
        is_renamed(r, sanitized(typed@), target@),
{
    let clean = sanitize_filename(typed);
    proof {
        a_sanitized_name_stays_in_its_directory(typed@, lowered(first_part(tidied(typed@))));
    }
    rename_clean(clean.as_str(), target)
}

// ---------------- probes ----------------

/// The answer of a probe is for the file that is chosen now. A probe the user
/// has already moved on from answers for the wrong file; only the current one
/// is adopted.
pub fn adopts_answer(answered: Option<&str>, asked_for: &str, input: &str) -> (r: bool)
    ensures
        r == (opt_str(answered) == Some(trimmed(input@)) || asked_for@ == trimmed(input@)),
{
    let current = trim(input);
    if let Some(a) = answered {
        if same(a, current.as_str()) {
            return true;
        }
    }
    same(asked_for, current.as_str())
}

// ---------------- laws ----------------

/// Where two fields make sense, an end comes after the start, so there is a
/// section to keep. Something unreadable is never a cut, and two empty fields
/// are none.
pub proof fn accepted_bounds_leave_a_section(start: TrimField, end: TrimField)
    ensures
        start is Bad || end is Bad ==> bounds_of(start, end) is None,
        start is Empty && end is Empty ==> bounds_of(start, end) == Some(
            (None::<i64>, None::<i64>),
        ),
        match bounds_of(start, end) {
            Some((a, Some(b))) => section_len(a, Some(b)) == Some(b - start_or_zero(a)) && b
                > start_or_zero(a),
            _ => true,
        },
{
}

/// A browser is only impersonated where yt-dlp can, and cookies come from a
/// file or from a browser, never from both.
pub proof fn options_ask_for_what_is_there(
    o: DownloadOpts,
    f: DownloadForm,
    impersonate_ok: bool,
    plugins_dir: Seq<char>,
)
    requires
        are_options_of(o, f, impersonate_ok, plugins_dir),
    ensures
        o.impersonate ==> o.impersonate_available,
        o.cookiefile@.len() > 0 ==> browser_of(f.cookies@) is None,
{
}

/// A file that is saved under another name stays in the directory of the file
/// it would have replaced, and keeps its extension. `clean` is a name without
/// what no file name may hold.
pub proof fn a_renamed_file_stays_beside_its_target(
    clean: Seq<char>,
    target: Seq<char>,
    windows: bool,
)
    requires
        plain_name(clean),
        !clean.contains(':'),
        is_known(target, windows),
        name_in(target, windows) is Some,
        bare_name(clean).len() > 0,
    ensures
        ({
            let name = named_like(bare_name(clean), ext_at(target, windows));
            let r = renamed_at(target, name, windows);
            &&& file_name_at(r, windows) == Some(name)
            &&& parent_at(r, windows) == parent_at(target, windows)
        }),
{
    let n = bare_name(clean);
    let old_name = name_in(target, windows)->0;
    let name = named_like(n, ext_in(target, windows));
    lemma_bare_name(clean);
    lemma_name(target, windows);
    lemma_parts_of(old_name);
    assert forall|i: int| 0 <= i < name.len() implies !is_sep(#[trigger] name[i], windows) by {
        if i < n.len() {
            assert(name[i] == n[i]);
            assert(n.contains(n[i]));
        } else if i > n.len() {
            let k = old_name.len() - name.len() + i;
            assert(name[i] == old_name[k]);
        }
    }
    assert(name[n.len() - 1] == n.last());
    if name.len() >= 2 && name[1] == ':' {
        assert(n.len() >= 2);
        assert(n[1] == ':');
        assert(n.contains(':'));
    }
    if name == seq!['.'] {
        assert(seq!['.'][0] == '.');
    }
    if name == seq!['.', '.'] {
        assert(seq!['.', '.'][0] == '.' && seq!['.', '.'][1] == '.');
    }
    lemma_beside(target, name, windows);
}

/// Each stored setting reaches the field of the form that it is for.
pub proof fn a_stored_setting_reaches_its_field(
    f: DownloadForm,
    s: Map<Seq<char>, Tree>,
    downloads: Seq<char>,
    text: Seq<char>,
    flag: bool,
)
    ensures
        is_read_from(f, s.insert("last_output_folder"@, Tree::Str(text)), downloads) ==> f.output@
            == text,
        is_read_from(f, s.insert("last_quality"@, Tree::Str(text)), downloads) ==> f.quality@
            == text,
        is_read_from(f, s.insert("last_cookies"@, Tree::Str(text)), downloads) ==> f.cookies@
            == text,
        is_read_from(f, s.insert("cookies_file"@, Tree::Str(text)), downloads) ==> f.cookiefile@
            == text,
        is_read_from(f, s.insert("conflict_mode"@, Tree::Str(text)), downloads) ==> f.conflict@
            == text,
        is_read_from(f, s.insert("impersonate"@, Tree::Bool(flag)), downloads) ==> f.impersonate
            == flag,
        is_read_from(f, s.insert("sponsorblock"@, Tree::Bool(flag)), downloads) ==> f.sponsorblock
            == flag,
        is_read_from(f, s.insert("embed"@, Tree::Bool(flag)), downloads) ==> f.embed == flag,
        is_read_from(f, s.insert("subs"@, Tree::Bool(flag)), downloads) ==> f.subs == flag,
        is_read_from(f, s.insert("subs_lang"@, Tree::Str(text)), downloads) ==> f.subs_lang@
            == text,
        is_read_from(f, s.insert("potoken"@, Tree::Bool(flag)), downloads) ==> f.potoken == flag,
        is_read_from(f, s.insert("potoken_url"@, Tree::Str(text)), downloads) ==> f.potoken_url@
            == text,
        is_read_from(f, s.insert("playlist"@, Tree::Bool(flag)), downloads) ==> f.playlist == flag,
        is_read_from(f, s.insert("playlist_items"@, Tree::Str(text)), downloads)
            ==> f.playlist_items@ == text,
        is_read_from(f, s.insert("rate_limit"@, Tree::Str(text)), downloads) ==> f.rate_limit@
            == text,
{
}

/// With nothing stored the form asks for the best quality into the folder for
/// downloads, with the metadata embedded and nothing else.
pub proof fn an_empty_configuration_gives_the_defaults(f: DownloadForm, downloads: Seq<char>)
    requires
        is_read_from(f, Map::empty(), downloads),
    ensures
        f.output@ == downloads,
        f.quality@ == "best"@,
        f.cookies@ == "none"@,
        f.conflict@ == "ask"@,
        f.subs_lang@ == "en,de"@,
        f.embed,
        !f.impersonate && !f.sponsorblock && !f.subs && !f.potoken && !f.playlist,
        f.cookiefile@ == ""@ && f.potoken_url@ == ""@ && f.playlist_items@ == ""@ && f.rate_limit@
            == ""@,
{
}

/// A download can start exactly when it has a folder, yt-dlp is there, a chosen
/// file of cookies exists and a limit can be read; else the first of these that
/// is missing is told.
pub proof fn a_download_starts_when_nothing_is_missing(
    f: DownloadForm,
    ytdlp_ok: bool,
    is_file: bool,
)
    ensures
        ({
            let folder = trimmed(f.output@).len() > 0;
            let cookies = f.cookies@ != "cookiefile"@ || (trimmed(f.cookiefile@).len() > 0
                && is_file);
            let rate = trimmed(f.rate_limit@).len() == 0 || is_rate(trimmed(f.rate_limit@));
            let p = download_problem(f, ytdlp_ok, is_file);
            &&& folder && ytdlp_ok && cookies && rate ==> p is None
            &&& !folder ==> p == Some("toast.need_folder"@)
            &&& folder && !ytdlp_ok ==> p == Some("toast.no_ytdlp"@)
            &&& folder && ytdlp_ok && !cookies ==> p == Some("toast.no_cookiefile"@)
            &&& folder && ytdlp_ok && cookies && !rate ==> p == Some("toast.bad_rate"@)
        }),
{
}

/// What is chosen in the form is what the download is asked for.
pub proof fn what_is_chosen_is_asked_for(
    o: DownloadOpts,
    f: DownloadForm,
    impersonate_ok: bool,
    plugins_dir: Seq<char>,
)
    requires
        are_options_of(o, f, impersonate_ok, plugins_dir),
    ensures
        o.impersonate <==> f.impersonate && impersonate_ok,
        o.impersonate_available <==> impersonate_ok,
        o.sponsorblock <==> f.sponsorblock,
        o.embed <==> f.embed,
        o.subs <==> f.subs,
        o.potoken <==> f.potoken,
        o.playlist <==> f.playlist,
        o.conflict@ == f.conflict@,
        o.rate_limit@ == trimmed(f.rate_limit@),
        o.potoken_url@ == trimmed(f.potoken_url@),
        o.plugins_dir@ == plugins_dir,
        o.playlist_items@ == playlist_range(f.playlist_items@),
        trimmed(f.subs_lang@).len() > 0 ==> o.subs_lang@ == trimmed(f.subs_lang@),
        trimmed(f.subs_lang@).len() == 0 ==> o.subs_lang@ == "en,de"@,
        f.cookies@ == "cookiefile"@ ==> o.cookiefile@ == trimmed(f.cookiefile@),
        f.cookies@ != "cookiefile"@ ==> o.cookiefile@.len() == 0,
{
}

/// Cookies come from the browser that was chosen, unless none was or a file.
pub proof fn cookies_come_from_the_chosen_browser(c: Seq<char>)
    ensures
        browser_of("none"@) is None,
        browser_of("cookiefile"@) is None,
        c != "none"@ && c != "cookiefile"@ ==> browser_of(c) == Some(c),
{
}

/// What is set in the form is what the conversion is asked for.
pub proof fn what_is_set_is_converted(
    r: ConvertParams,
    f: ConvertForm,
    bounds: (Option<i64>, Option<i64>),
)
    requires
        are_params_of(r, f, bounds),
    ensures
        r.codec_key@ == f.codec@,
        r.hw_setting@ == f.hw@,
        r.crf == f.crf,
        r.custom_br == f.custom_br,
        r.use_custom <==> f.bitrate_mode@ == "custom"@,
        r.preserve_color <==> f.preserve_color,
        (r.trim_start, r.trim_end) == bounds,
{
}

/// A conversion needs a source that is there and another file to write to.
pub proof fn a_conversion_needs_two_files(f: ConvertForm, is_there: bool, ffmpeg_ok: bool)
    ensures
        ({
            let named = trimmed(f.input@).len() > 0 && trimmed(f.output@).len() > 0;
            &&& !named ==> input_problem(f, is_there) == Some("toast.need_io"@)
            &&& named && !is_there ==> input_problem(f, is_there) == Some("toast.no_input"@)
            &&& named && is_there ==> input_problem(f, is_there) is None
        }),
        output_problem(true, ffmpeg_ok) == Some("toast.same_io"@),
        output_problem(false, false) == Some("toast.no_ffmpeg"@),
        output_problem(false, true) is None,
{
}

/// A size is estimated from the bitrate of the picture in megabits, 192 kilobits
/// of sound and the length, eight bits to the byte and cut to whole bytes, as
/// far as a number of 64 bits reaches.
pub proof fn an_estimate_counts_picture_and_sound(mbit: int, nanos: nat)
    requires
        0 <= mbit,
    ensures
        ({
            let bits = (mbit * 1_000_000 + 192_000) * nanos;
            let bytes = estimate(mbit, nanos);
            &&& bits < 8_000_000_000 * 0x1_0000_0000_0000_0000 ==> bytes * 8_000_000_000 <= bits < (
            bytes + 1) * 8_000_000_000
            &&& bits >= 8_000_000_000 * 0x1_0000_0000_0000_0000 ==> bytes == u64::MAX
        }),
{
    let rate = mbit * 1_000_000 + 192_000;
    assert(rate * nanos >= 0) by (nonlinear_arith)
        requires
            rate >= 0,
    ;
}

/// The part that is kept reaches from the start to the end that was asked for,
/// or to the end of the file.
pub proof fn the_kept_part_reaches_from_start_to_end(total: int, a: i64, b: i64)
    requires
        0 <= a <= b <= total,
    ensures
        kept_nanos(total, (None, None)) == total,
        kept_nanos(total, (Some(a), None)) == total - a,
        kept_nanos(total, (None, Some(b))) == b,
        kept_nanos(total, (Some(a), Some(b))) == b - a,
{
}

/// Two bounds are taken as they are where they leave something between them.
pub proof fn bounds_are_taken_as_typed(a: i64, b: i64)
    ensures
        a < b ==> bounds_of(TrimField::At(a), TrimField::At(b)) == Some((Some(a), Some(b))),
        b <= a ==> bounds_of(TrimField::At(a), TrimField::At(b)) is None,
        bounds_of(TrimField::At(a), TrimField::Empty) == Some((Some(a), None::<i64>)),
        b > 0 ==> bounds_of(TrimField::Empty, TrimField::At(b)) == Some((None::<i64>, Some(b))),
        b <= 0 ==> bounds_of(TrimField::Empty, TrimField::At(b)) is None,
{
}

/// The note on a cut tells how long what is kept will be, or from where on it
/// is kept.
pub proof fn a_note_tells_the_kept_length(lang: Lang, a: i64, b: i64, secs: nat)
    requires
        0 <= a < b,
        b - a == secs * 1_000_000_000,
    ensures
        trim_note(lang, None) == phrase(lang, "cv.trim_bad"@),
        trim_note(lang, Some((None, None))).len() == 0,
        trim_note(lang, Some((Some(a), Some(b)))) == filled(
            phrase(lang, "cv.trim_active"@),
            seq![clock_text(secs)],
        ),
{
}

/// A converted file stands beside its source under its name with `_converted`
/// and is an MP4.
pub proof fn a_converted_file_is_told_by_its_name(stem: Seq<char>)
    ensures
        converted_name(stem) == stem + "_converted.mp4"@,
{
}

/// The file of a conversion to sound has the extension of the sound, and any
/// other the name that was typed.
pub proof fn sound_is_written_under_its_extension(
    r: Seq<char>,
    output: Seq<char>,
    ext: Option<Seq<char>>,
    codec: Seq<char>,
    windows: bool,
)
    ensures
        is_output(r, output, ext, "audio_mp3"@, windows) && ext != Some("mp3"@) ==> r
            == extended_at(output, "mp3"@, windows),
        is_output(r, output, ext, "audio_wav"@, windows) && ext != Some("wav"@) ==> r
            == extended_at(output, "wav"@, windows),
        is_output(r, output, Some("mp3"@), "audio_mp3"@, windows) ==> r == output,
        is_output(r, output, Some("wav"@), "audio_wav"@, windows) ==> r == output,
        codec != "audio_mp3"@ && codec != "audio_wav"@ && is_output(r, output, ext, codec, windows)
            ==> r == output,
{
    sound_has_the_extension_of_its_format(codec);
}

/// A new name keeps the extension of the file it is for.
pub proof fn a_new_name_keeps_the_extension(name: Seq<char>, e: Seq<char>)
    ensures
        named_like(name, Some(e)) == name + seq!['.'] + e,
        named_like(name, None) == name,
{
    assert(named_like(name, Some(e)) =~= name + seq!['.'] + e);
}

/// A name of which nothing is left is asked for again.
pub proof fn an_empty_name_is_asked_for_again(
    r: Result<String, &'static str>,
    clean: Seq<char>,
    target: Seq<char>,
)
    requires
        is_renamed(r, clean, target),
    ensures
        bare_name(clean).len() == 0 ==> r is Err && r->Err_0@ == "conflict.need_name"@,
        bare_name(clean).len() > 0 ==> r is Ok,
{
}

/// The note on a cut without an end tells from where on the file is kept.
pub proof fn a_note_without_an_end_tells_the_start(lang: Lang, secs: nat)
    requires
        secs * 1_000_000_000 <= i64::MAX,
    ensures
        trim_note(lang, Some((Some((secs * 1_000_000_000) as i64), None))) == filled(
            phrase(lang, "cv.trim_active"@),
            seq![clock_text(secs) + " -> "@ + phrase(lang, "cv.trim_end_of_file"@)],
        ),
{
}

/// A size is estimated for a video with a bitrate of its own whose section can
/// be read, and for nothing else.
pub proof fn only_a_bitrate_gives_an_estimate(
    f: ConvertForm,
    total: int,
    b: (Option<i64>, Option<i64>),
)
    ensures
        ({
            let sound = f.codec@ == "audio_mp3"@ || f.codec@ == "audio_wav"@;
            &&& f.bitrate_mode@ == "custom"@ && !sound ==> estimate_of(f, total, Some(b)) == Some(
                bytes_text(estimate(f.custom_br as int, kept_nanos(total, b))),
            )
            &&& f.bitrate_mode@ != "custom"@ || sound ==> estimate_of(f, total, Some(b)) is None
            &&& estimate_of(f, total, None) is None
        }),
{
    sound_has_the_extension_of_its_format(f.codec@);
}

} // verus!
