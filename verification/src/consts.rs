//! Application constants and the option tables of the dropdowns.
//!
//! A table holds `(value, key)` pairs; the key is looked up in `crate::i18n`
//! at draw time and never shown as it is.

use crate::number::{all_digits, dec, dec_reads_back, digits_value, without_plus};
use crate::text::{
    any_within, char_in, from_chars, is_ascii_letter, is_ascii_letter_char, is_digit, is_digit_char,
    lemma_trimmed_start, one_of, same, to_chars, trim, trim_start_of, trimmed, trimmed_start,
    within,
};
use crate::util::audio_ext_of_codec;
use vstd::prelude::*;

verus! {

pub const VERSION: &'static str = "0.2.0";

pub const APP_NAME: &'static str = "Video Tool";

/// First stable yt-dlp release with the reworked Instagram extractor.
pub const YTDLP_INSTAGRAM_FIX: &'static str = "2026.07.04";

/// Hosts that block yt-dlp's default TLS fingerprint - impersonation is
/// auto-enabled for these when curl_cffi support is available.
pub const IMPERSONATE_AUTO_HOSTS: [&'static str; 7] = [
    "instagram.com",
    "tiktok.com",
    "twitter.com",
    "//x.com",
    "www.x.com",
    "facebook.com",
    "fb.watch",
];

/// Hosts whose video titles are built from the uploader's name ("Video by
/// someone"), which would end up in the file name. Downloads from these get a
/// neutral "video-1234" name instead.
pub const ANON_NAME_HOSTS: [&'static str; 1] = ["instagram.com"];

// ---------------- option tables ----------------

/// A value and the key of its label.
pub type Choice = (&'static str, &'static str);

pub const STANDARD_CODECS: [Choice; 5] = [
    ("h264", "codec.h264"),
    ("h265", "codec.h265"),
    ("av1", "codec.av1"),
    ("vp9", "codec.vp9"),
    ("copy", "codec.copy"),
];

pub const EDITING_CODECS: [Choice; 6] = [
    ("h264_allintra", "codec.h264_allintra"),
    ("h264_handbrake", "codec.h264_handbrake"),
    ("vegas_fix", "codec.vegas_fix"),
    ("prores422", "codec.prores422"),
    ("prores422hq", "codec.prores422hq"),
    ("dnxhr_hq", "codec.dnxhr_hq"),
];

pub const DELIVERY_CODECS: [Choice; 4] = [
    ("youtube", "codec.youtube"),
    ("youtube_av1", "codec.youtube_av1"),
    ("social", "codec.social"),
    ("copy", "codec.copy"),
];

pub const AUDIO_CODECS: [Choice; 2] = [
    ("audio_mp3", "codec.audio_mp3"),
    ("audio_wav", "codec.audio_wav"),
];

/// The codec choices of a category; an unknown one offers those for editing.
pub open spec fn codecs_of(category: Seq<char>) -> Seq<Choice> {
    if category == "standard"@ {
        STANDARD_CODECS@
    } else if category == "delivery"@ {
        DELIVERY_CODECS@
    } else if category == "audio"@ {
        AUDIO_CODECS@
    } else {
        EDITING_CODECS@
    }
}

/// Codec choices grouped by category.
pub fn codec_options(category: &str) -> (r: &'static [Choice])
    ensures
        r@ == codecs_of(category@),
        r@.len() > 0,
{
    if same(category, "standard") {
        &STANDARD_CODECS
    } else if same(category, "delivery") {
        &DELIVERY_CODECS
    } else if same(category, "audio") {
        &AUDIO_CODECS
    } else {
        &EDITING_CODECS
    }
}

/// Quality choices of the Download tab.
pub const QUALITY_OPTIONS: [Choice; 10] = [
    ("best", "quality.best"),
    ("best_av1", "quality.best_av1"),
    ("2160", "quality.2160"),
    ("1440", "quality.1440"),
    ("1080", "quality.1080"),
    ("720", "quality.720"),
    ("480", "quality.480"),
    ("audio_wav", "quality.audio_wav"),
    ("audio", "quality.audio"),
    ("audio_opus", "quality.audio_opus"),
];

pub const CONFLICT_OPTIONS: [Choice; 4] = [
    ("ask", "conflictopt.ask"),
    ("rename", "conflictopt.rename"),
    ("overwrite", "conflictopt.overwrite"),
    ("skip", "conflictopt.skip"),
];

pub const COOKIES_OPTIONS: [Choice; 7] = [
    ("none", "cookies.none"),
    ("firefox", "cookies.firefox"),
    ("cookiefile", "cookies.cookiefile"),
    ("chrome", "cookies.chrome"),
    ("edge", "cookies.edge"),
    ("brave", "cookies.brave"),
    ("safari", "cookies.safari"),
];

pub const CATEGORY_OPTIONS: [Choice; 4] = [
    ("standard", "cat.standard"),
    ("editing", "cat.editing"),
    ("delivery", "cat.delivery"),
    ("audio", "cat.audio"),
];

pub const HW_OPTIONS: [Choice; 5] = [
    ("auto", "hw.auto"),
    ("nvidia", "hw.nvidia"),
    ("amd", "hw.amd"),
    ("intel", "hw.intel"),
    ("cpu", "hw.cpu"),
];

pub const BITRATE_MODE_OPTIONS: [Choice; 2] = [("crf", "brmode.crf"), ("custom", "brmode.custom")];

pub const CHANNEL_OPTIONS: [Choice; 3] = [
    ("stable", "channel.stable"),
    ("nightly", "channel.nightly"),
    ("master", "channel.master"),
];

pub const HISTORY_FILTER_OPTIONS: [Choice; 3] = [
    ("all", "histf.all"),
    ("download", "histf.download"),
    ("convert", "histf.convert"),
];

pub const THEME_OPTIONS: [Choice; 2] = [("dark", "theme.dark"), ("light", "theme.light")];

/// Most entries the history keeps. Old ones fall off the end.
pub const HISTORY_LIMIT: usize = 200;

// ---------------- typed values that reach yt-dlp ----------------

/// Most characters that a speed limit may have.
pub const RATE_LIMIT_CHARS: usize = 12;

/// The position of the first ASCII letter from `i` on, or the end.
pub open spec fn letter_from(t: Seq<char>, i: int) -> int
    decreases t.len() - i,
{
    if i < 0 || i >= t.len() || is_ascii_letter(t[i]) {
        i
    } else {
        letter_from(t, i + 1)
    }
}

/// `m` consists of digits with at most one point among them, and some digit is
/// not zero.
pub open spec fn is_nonzero_decimal(m: Seq<char>) -> bool {
    &&& forall|i: int| 0 <= i < m.len() ==> is_digit(#[trigger] m[i]) || m[i] == '.'
    &&& forall|i: int, j: int| 0 <= i < j < m.len() ==> !(m[i] == '.' && m[j] == '.')
    &&& exists|i: int| 0 <= i < m.len() && '1' <= #[trigger] m[i] <= '9'
}

/// `n` spells a decimal number above zero, with a plus sign in front at most.
pub open spec fn is_positive_decimal(n: Seq<char>) -> bool {
    is_nonzero_decimal(without_plus(n))
}

/// `u` is one of the units of a speed limit, in either case, or nothing.
pub open spec fn is_rate_unit(u: Seq<char>) -> bool {
    ||| u.len() == 0
    ||| u.len() == 1 && (u[0] == 'k' || u[0] == 'K' || u[0] == 'm' || u[0] == 'M' || u[0] == 'g'
        || u[0] == 'G')
}

/// `t` is a speed limit: a number above zero with a unit at most behind it.
pub open spec fn is_rate(t: Seq<char>) -> bool {
    let at = letter_from(t, 0);
    t.len() <= RATE_LIMIT_CHARS && is_positive_decimal(t.take(at)) && is_rate_unit(t.skip(at))
}

fn positive_decimal(v: &Vec<char>, end: usize) -> (r: bool)
    requires
        end <= v@.len(),
    ensures
        r == is_positive_decimal(v@.take(end as int)),
{
    let ghost n = v@.take(end as int);
    let from: usize = if end > 0 && v[0] == '+' {
        1
    } else {
        0
    };
    let ghost m = without_plus(n);
    assert(m =~= n.skip(from as int));
    let mut dot: bool = false;
    let mut above: bool = false;
    for i in from..end
        invariant
            from <= i <= end <= v@.len(),
            n == v@.take(end as int),
            m == n.skip(from as int),
            m == without_plus(n),
            forall|j: int| 0 <= j < i - from ==> is_digit(#[trigger] m[j]) || m[j] == '.',
            dot == (exists|j: int| 0 <= j < i - from && #[trigger] m[j] == '.'),
            forall|a: int, b: int| 0 <= a < b < i - from ==> !(m[a] == '.' && m[b] == '.'),
            above == (exists|j: int| 0 <= j < i - from && '1' <= #[trigger] m[j] <= '9'),
    {
        let c = v[i];
        let ghost k = i - from;
        assert(m[k] == c);
        if c == '.' {
            if dot {
                let ghost a = choose|a: int| 0 <= a < k && #[trigger] m[a] == '.';
                assert(m[a] == '.' && m[k] == '.');
                return false;
            }
            dot = true;
        } else if is_digit_char(c) {
            if c != '0' {
                above = true;
            }
        } else {
            return false;
        }
    }
    assert(m.len() == end - from);
    above
}

/// Accepted shape of a `--limit-rate` value, e.g. "2M", "500K", "1.5M".
pub fn is_rate_limit(text: &str) -> (r: bool)
    ensures
        r == is_rate(trimmed(text@)),
{
    let t = trim(text);
    let v = to_chars(t.as_str());
    if v.len() > RATE_LIMIT_CHARS {
        return false;
    }
    let mut at: usize = 0;
    while at < v.len() && !is_ascii_letter_char(v[at])
        invariant
            at <= v@.len(),
            letter_from(v@, 0) == letter_from(v@, at as int),
        decreases v@.len() - at,
    {
        at += 1;
    }
    assert(letter_from(v@, 0) == at);
    let rest: usize = v.len() - at;
    let ghost u = v@.skip(at as int);
    let unit = if rest == 0 {
        true
    } else if rest == 1 {
        assert(u[0] == v@[at as int]);
        char_in(&['k', 'K', 'm', 'M', 'g', 'G'], v[at])
    } else {
        false
    };
    proof {
        if rest == 1 {
            let set = ['k', 'K', 'm', 'M', 'g', 'G']@;
            assert(set[0] == 'k' && set[1] == 'K' && set[2] == 'm' && set[3] == 'M' && set[4] == 'g'
                && set[5] == 'G');
        }
    }
    assert(unit == is_rate_unit(u));
    unit && positive_decimal(&v, at)
}

/// Characters a `--playlist-items` range may consist of. Anything else is
/// dropped rather than handed to yt-dlp, which would read it as a new option.
pub const PLAYLIST_ITEMS_CHARS: &'static str = "0123456789,:-";

/// The characters of `s` that `set` holds, in order.
pub open spec fn kept(s: Seq<char>, set: Seq<char>) -> Seq<char>
    decreases s.len(),
{
    if s.len() == 0 {
        seq![]
    } else if set.contains(s.last()) {
        kept(s.drop_last(), set).push(s.last())
    } else {
        kept(s.drop_last(), set)
    }
}

/// The playlist range in a typed text: its range characters from the first one
/// on that is no separator.
pub open spec fn playlist_range(s: Seq<char>) -> Seq<char> {
    trimmed_start(kept(s, PLAYLIST_ITEMS_CHARS@), one_of(seq![',', ':', '-']))
}

/// Keeps only the characters a playlist range may contain.
///
/// The leading separators go too: a value starting with "-" would reach
/// yt-dlp as an option rather than as the range it is meant to be.
pub fn clean_playlist_items(text: &str) -> (r: String)
    ensures
        r@ == playlist_range(text@),
{
    let v = to_chars(text);
    let set = to_chars(PLAYLIST_ITEMS_CHARS);
    let mut out: Vec<char> = Vec::new();
    for i in 0..v.len()
        invariant
            v@ == text@,
            set@ == PLAYLIST_ITEMS_CHARS@,
            out@ == kept(text@.take(i as int), set@),
    {
        assert(text@.take(i + 1).drop_last() =~= text@.take(i as int));
        if char_in(set.as_slice(), v[i]) {
            out.push(v[i]);
        }
    }
    assert(text@.take(text@.len() as int) =~= text@);
    let all = from_chars(&out, 0, out.len());
    assert(all@ =~= kept(text@, PLAYLIST_ITEMS_CHARS@));
    let sep = [',', ':', '-'];
    assert(sep@ =~= seq![',', ':', '-']);
    trim_start_of(all.as_str(), &sep)
}

// ---------------- laws ----------------

/// Each key of a table is made of its value.
spec fn keyed(options: Seq<Choice>) -> bool {
    forall|i: int|
        0 <= i < options.len() ==> (#[trigger] options[i]).1@ == "codec."@ + options[i].0@
}

proof fn lemma_codec_keys()
    ensures
        keyed(STANDARD_CODECS@),
        keyed(EDITING_CODECS@),
        keyed(DELIVERY_CODECS@),
        keyed(AUDIO_CODECS@),
{
    reveal_strlit("codec.");
    reveal_strlit("h264");
    reveal_strlit("h265");
    reveal_strlit("av1");
    reveal_strlit("vp9");
    reveal_strlit("copy");
    reveal_strlit("h264_allintra");
    reveal_strlit("h264_handbrake");
    reveal_strlit("vegas_fix");
    reveal_strlit("prores422");
    reveal_strlit("prores422hq");
    reveal_strlit("dnxhr_hq");
    reveal_strlit("youtube");
    reveal_strlit("youtube_av1");
    reveal_strlit("social");
    reveal_strlit("audio_mp3");
    reveal_strlit("audio_wav");
    reveal_strlit("codec.h264");
    reveal_strlit("codec.h265");
    reveal_strlit("codec.av1");
    reveal_strlit("codec.vp9");
    reveal_strlit("codec.copy");
    reveal_strlit("codec.h264_allintra");
    reveal_strlit("codec.h264_handbrake");
    reveal_strlit("codec.vegas_fix");
    reveal_strlit("codec.prores422");
    reveal_strlit("codec.prores422hq");
    reveal_strlit("codec.dnxhr_hq");
    reveal_strlit("codec.youtube");
    reveal_strlit("codec.youtube_av1");
    reveal_strlit("codec.social");
    reveal_strlit("codec.audio_mp3");
    reveal_strlit("codec.audio_wav");
    assert("codec.h264"@ =~= "codec."@ + "h264"@);
    assert("codec.h265"@ =~= "codec."@ + "h265"@);
    assert("codec.av1"@ =~= "codec."@ + "av1"@);
    assert("codec.vp9"@ =~= "codec."@ + "vp9"@);
    assert("codec.copy"@ =~= "codec."@ + "copy"@);
    assert("codec.h264_allintra"@ =~= "codec."@ + "h264_allintra"@);
    assert("codec.h264_handbrake"@ =~= "codec."@ + "h264_handbrake"@);
    assert("codec.vegas_fix"@ =~= "codec."@ + "vegas_fix"@);
    assert("codec.prores422"@ =~= "codec."@ + "prores422"@);
    assert("codec.prores422hq"@ =~= "codec."@ + "prores422hq"@);
    assert("codec.dnxhr_hq"@ =~= "codec."@ + "dnxhr_hq"@);
    assert("codec.youtube"@ =~= "codec."@ + "youtube"@);
    assert("codec.youtube_av1"@ =~= "codec."@ + "youtube_av1"@);
    assert("codec.social"@ =~= "codec."@ + "social"@);
    assert("codec.audio_mp3"@ =~= "codec."@ + "audio_mp3"@);
    assert("codec.audio_wav"@ =~= "codec."@ + "audio_wav"@);
}

/// Two texts differ in length or somewhere in what they begin with.
spec fn apart(a: Seq<char>, b: Seq<char>) -> bool {
    a.len() != b.len() || a[0] != b[0] || a[1] != b[1] || a[2] != b[2] || a[3] != b[3] || a[6]
        != b[6]
}

proof fn lemma_codec_values(category: Seq<char>)
    ensures
        ({
            let o = codecs_of(category);
            forall|i: int, j: int|
                0 <= i < j < o.len() ==> apart(#[trigger] o[i].0@, #[trigger] o[j].0@)
        }),
{
    reveal_strlit("h264");
    reveal_strlit("h265");
    reveal_strlit("av1");
    reveal_strlit("vp9");
    reveal_strlit("copy");
    reveal_strlit("h264_allintra");
    reveal_strlit("h264_handbrake");
    reveal_strlit("vegas_fix");
    reveal_strlit("prores422");
    reveal_strlit("prores422hq");
    reveal_strlit("dnxhr_hq");
    reveal_strlit("youtube");
    reveal_strlit("youtube_av1");
    reveal_strlit("social");
    reveal_strlit("audio_mp3");
    reveal_strlit("audio_wav");
}

proof fn lemma_audio_codecs()
    ensures
        forall|i: int|
            0 <= i < STANDARD_CODECS@.len() ==> audio_ext_of_codec(
                #[trigger] STANDARD_CODECS@[i].0@,
            ) is None,
        forall|i: int|
            0 <= i < EDITING_CODECS@.len() ==> audio_ext_of_codec(
                #[trigger] EDITING_CODECS@[i].0@,
            ) is None,
        forall|i: int|
            0 <= i < DELIVERY_CODECS@.len() ==> audio_ext_of_codec(
                #[trigger] DELIVERY_CODECS@[i].0@,
            ) is None,
        forall|i: int|
            0 <= i < AUDIO_CODECS@.len() ==> audio_ext_of_codec(
                #[trigger] AUDIO_CODECS@[i].0@,
            ) is Some,
{
    reveal_strlit("h264");
    reveal_strlit("h265");
    reveal_strlit("av1");
    reveal_strlit("vp9");
    reveal_strlit("copy");
    reveal_strlit("h264_allintra");
    reveal_strlit("h264_handbrake");
    reveal_strlit("vegas_fix");
    reveal_strlit("prores422");
    reveal_strlit("prores422hq");
    reveal_strlit("dnxhr_hq");
    reveal_strlit("youtube");
    reveal_strlit("youtube_av1");
    reveal_strlit("social");
    reveal_strlit("audio_mp3");
    reveal_strlit("audio_wav");
    assert forall|i: int| 0 <= i < STANDARD_CODECS@.len() implies audio_ext_of_codec(
        #[trigger] STANDARD_CODECS@[i].0@,
    ) is None by {
        assert(STANDARD_CODECS@[i].0@.len() < 9);
    }
    assert forall|i: int| 0 <= i < EDITING_CODECS@.len() implies audio_ext_of_codec(
        #[trigger] EDITING_CODECS@[i].0@,
    ) is None by {
        assert(EDITING_CODECS@[i].0@[0] != 'a');
    }
    assert forall|i: int| 0 <= i < DELIVERY_CODECS@.len() implies audio_ext_of_codec(
        #[trigger] DELIVERY_CODECS@[i].0@,
    ) is None by {
        assert(DELIVERY_CODECS@[i].0@[0] != 'a');
    }
}

/// Every category offers something, no value twice, and each under the key that
/// is made of its value. Codecs that make audio files are offered in the audio
/// category and nowhere else. An unknown category offers what editing does.
pub proof fn codecs_are_told_apart(category: Seq<char>)
    ensures
        ({
            let o = codecs_of(category);
            &&& o.len() > 0
            &&& forall|i: int, j: int|
                0 <= i < j < o.len() ==> #[trigger] o[i].0@ != #[trigger] o[j].0@
            &&& forall|i: int|
                0 <= i < o.len() ==> (#[trigger] o[i]).1@ == "codec."@ + o[i].0@
            &&& forall|i: int|
                0 <= i < o.len() ==> audio_ext_of_codec((#[trigger] o[i]).0@) is Some == (category
                    == "audio"@)
            &&& category != "standard"@ && category != "delivery"@ && category != "audio"@ ==> o
                == codecs_of("editing"@)
        }),
{
    lemma_codec_keys();
    lemma_codec_values(category);
    lemma_audio_codecs();
    reveal_strlit("standard");
    reveal_strlit("delivery");
    reveal_strlit("audio");
    reveal_strlit("editing");
    assert("editing"@[0] == 'e');
    assert("standard"@[0] == 's' && "delivery"@[0] == 'd' && "audio"@[0] == 'a');
    let o = codecs_of(category);
    assert forall|i: int, j: int| 0 <= i < j < o.len() implies #[trigger] o[i].0@
        != #[trigger] o[j].0@ by {
        assert(apart(o[i].0@, o[j].0@));
    }
}

proof fn lemma_kept(s: Seq<char>, set: Seq<char>)
    ensures
        forall|i: int| 0 <= i < kept(s, set).len() ==> set.contains(#[trigger] kept(s, set)[i]),
    decreases s.len(),
{
    if s.len() > 0 {
        lemma_kept(s.drop_last(), set);
        let before = kept(s.drop_last(), set);
        if set.contains(s.last()) {
            let all = kept(s, set);
            assert forall|i: int| 0 <= i < all.len() implies set.contains(#[trigger] all[i]) by {
                if i < before.len() {
                    assert(all[i] == before[i]);
                }
            }
        }
    }
}

/// Whatever was typed, what is handed on as a playlist range consists of range
/// characters and does not begin like an option.
pub proof fn a_playlist_range_is_no_option(s: Seq<char>)
    ensures
        forall|i: int|
            0 <= i < playlist_range(s).len() ==> PLAYLIST_ITEMS_CHARS@.contains(
                #[trigger] playlist_range(s)[i],
            ),
        playlist_range(s).len() > 0 ==> playlist_range(s)[0] != '-' && playlist_range(s)[0] != ','
            && playlist_range(s)[0] != ':',
{
    let sep = seq![',', ':', '-'];
    let all = kept(s, PLAYLIST_ITEMS_CHARS@);
    let r = playlist_range(s);
    lemma_kept(s, PLAYLIST_ITEMS_CHARS@);
    lemma_trimmed_start(all, one_of(sep));
    assert forall|i: int| 0 <= i < r.len() implies PLAYLIST_ITEMS_CHARS@.contains(
        #[trigger] r[i],
    ) by {
        assert(r[i] == all[all.len() - r.len() + i]);
    }
    if r.len() > 0 {
        assert(!one_of(sep)(r[0]));
        assert(sep[0] == ',' && sep[1] == ':' && sep[2] == '-');
    }
}

/// Taking the range out of a text that is a range already changes nothing.
pub proof fn a_clean_range_stays(s: Seq<char>)
    requires
        forall|i: int| 0 <= i < s.len() ==> PLAYLIST_ITEMS_CHARS@.contains(#[trigger] s[i]),
        s.len() > 0 ==> s[0] != '-' && s[0] != ',' && s[0] != ':',
    ensures
        playlist_range(s) == s,
{
    lemma_kept_all(s, PLAYLIST_ITEMS_CHARS@);
    if s.len() > 0 {
        assert(!one_of(seq![',', ':', '-'])(s[0]));
    }
}

proof fn lemma_kept_all(s: Seq<char>, set: Seq<char>)
    requires
        forall|i: int| 0 <= i < s.len() ==> set.contains(#[trigger] s[i]),
    ensures
        kept(s, set) == s,
    decreases s.len(),
{
    if s.len() > 0 {
        lemma_kept_all(s.drop_last(), set);
        assert(s.drop_last().push(s.last()) =~= s);
    } else {
        assert(kept(s, set) =~= s);
    }
}

proof fn lemma_letter_from(t: Seq<char>, i: int)
    requires
        0 <= i <= t.len(),
    ensures
        i <= letter_from(t, i) <= t.len(),
    decreases t.len() - i,
{
    if i < t.len() && !is_ascii_letter(t[i]) {
        lemma_letter_from(t, i + 1);
    }
}

/// A speed limit that is accepted begins with a digit, a point or a plus sign,
/// so it cannot be taken for an option, and holds no white space.
pub proof fn a_rate_is_no_option(t: Seq<char>)
    requires
        is_rate(t),
    ensures
        t.len() > 0,
        is_digit(t[0]) || t[0] == '.' || t[0] == '+',
        forall|i: int| 0 <= i < t.len() ==> #[trigger] t[i] != ' ' && t[i] != '-',
{
    let at = letter_from(t, 0);
    lemma_letter_from(t, 0);
    let n = t.take(at);
    let m = without_plus(n);
    let i = choose|i: int| 0 <= i < m.len() && '1' <= #[trigger] m[i] <= '9';
    assert(n.len() > 0);
    assert(t[0] == n[0]);
    assert(t[0] != '+' ==> m[0] == t[0]);
    assert forall|i: int| 0 <= i < t.len() implies #[trigger] t[i] != ' ' && t[i] != '-' by {
        if i < at {
            assert(t[i] == n[i]);
            if n[0] == '+' {
                if i > 0 {
                    assert(m[i - 1] == t[i]);
                }
            } else {
                assert(m[i] == t[i]);
            }
        } else {
            assert(t.skip(at)[i - at] == t[i]);
        }
    }
}

/// These characters may stand in a range of a playlist.
pub proof fn a_range_is_digits_and_separators(c: char)
    ensures
        PLAYLIST_ITEMS_CHARS@.contains(c) <==> is_digit(c) || c == ',' || c == ':' || c == '-',
{
    reveal_strlit("0123456789,:-");
    let s = PLAYLIST_ITEMS_CHARS@;
    assert(s.len() == 13);
    assert(s[0] == '0' && s[1] == '1' && s[2] == '2' && s[3] == '3' && s[4] == '4');
    assert(s[5] == '5' && s[6] == '6' && s[7] == '7' && s[8] == '8' && s[9] == '9');
    assert(s[10] == ',' && s[11] == ':' && s[12] == '-');
}

/// What may stand in a range is kept in its order, and the separators in front
/// are dropped.
pub proof fn a_range_keeps_its_order(s: Seq<char>)
    ensures
        kept(s, PLAYLIST_ITEMS_CHARS@) == s.filter(
            |c: char| is_digit(c) || c == ',' || c == ':' || c == '-',
        ),
    decreases s.len(),
{
    reveal(Seq::filter);
    if s.len() > 0 {
        a_range_is_digits_and_separators(s.last());
        a_range_keeps_its_order(s.drop_last());
    }
}

proof fn lemma_letter_behind(d: Seq<char>, u: Seq<char>, i: int)
    requires
        all_digits(d),
        0 <= i <= d.len(),
        u.len() == 0 || is_ascii_letter(u[0]),
    ensures
        letter_from(d + u, i) == d.len(),
    decreases d.len() - i,
{
    if i < d.len() {
        assert((d + u)[i] == d[i]);
        assert(is_digit(d[i]));
        lemma_letter_behind(d, u, i + 1);
    } else if u.len() > 0 {
        assert((d + u)[i] == u[0]);
    }
}

proof fn lemma_some_nonzero(d: Seq<char>)
    requires
        all_digits(d),
        digits_value(d) > 0,
    ensures
        exists|i: int| 0 <= i < d.len() && '1' <= #[trigger] d[i] <= '9',
    decreases d.len(),
{
    let c = d.drop_last();
    assert(is_digit(d[d.len() - 1]));
    if d.last() == '0' {
        assert(all_digits(c)) by {
            assert forall|i: int| 0 <= i < c.len() implies is_digit(#[trigger] c[i]) by {
                assert(is_digit(d[i]));
            }
        }
        lemma_some_nonzero(c);
        let i = choose|i: int| 0 <= i < c.len() && '1' <= #[trigger] c[i] <= '9';
        assert('1' <= d[i] <= '9');
    } else {
        assert('1' <= d[d.len() - 1] <= '9');
    }
}

/// A number that is not zero is a speed limit, alone or with the letter of a
/// unit behind it: kilo, mega or giga, and no other.
pub proof fn a_number_with_a_unit_is_a_rate(n: nat, u: char)
    requires
        n > 0,
        dec(n).len() < 12,
        is_ascii_letter(u),
    ensures
        is_rate(dec(n)),
        is_rate(dec(n).push(u)) <==> u == 'k' || u == 'K' || u == 'm' || u == 'M' || u == 'g' || u
            == 'G',
        !is_rate(Seq::empty()),
{
    let d = dec(n);
    dec_reads_back(n);
    let none = Seq::<char>::empty();
    assert(d =~= d + none);
    lemma_letter_behind(d, none, 0);
    assert(d.take(d.len() as int) =~= d);
    assert(d.skip(d.len() as int) =~= none);
    assert(is_digit(d[0]));
    lemma_some_nonzero(d);
    assert forall|i: int| 0 <= i < d.len() implies is_digit(#[trigger] d[i]) || d[i] == '.' by {}
    assert forall|i: int, j: int| 0 <= i < j < d.len() implies !(d[i] == '.' && d[j] == '.') by {
        assert(is_digit(d[i]));
    }
    assert(is_positive_decimal(d));
    let t = d.push(u);
    assert(t =~= d + seq![u]);
    lemma_letter_behind(d, seq![u], 0);
    assert(t.take(d.len() as int) =~= d);
    assert(t.skip(d.len() as int) =~= seq![u]);
    assert(none.take(0) =~= none);
    assert(!is_positive_decimal(none));
    assert(letter_from(none, 0) == 0);
}

/// The choices are offered in this order, and the first of each is the one that
/// the program starts with.
pub proof fn these_choices_are_offered()
    ensures
        QUALITY_OPTIONS@.map_values(|c: Choice| c.0@) == seq![
            "best"@,
            "best_av1"@,
            "2160"@,
            "1440"@,
            "1080"@,
            "720"@,
            "480"@,
            "audio_wav"@,
            "audio"@,
            "audio_opus"@,
        ],
        CONFLICT_OPTIONS@.map_values(|c: Choice| c.0@) == seq![
            "ask"@,
            "rename"@,
            "overwrite"@,
            "skip"@,
        ],
        COOKIES_OPTIONS@.map_values(|c: Choice| c.0@) == seq![
            "none"@,
            "firefox"@,
            "cookiefile"@,
            "chrome"@,
            "edge"@,
            "brave"@,
            "safari"@,
        ],
        CATEGORY_OPTIONS@.map_values(|c: Choice| c.0@) == seq![
            "standard"@,
            "editing"@,
            "delivery"@,
            "audio"@,
        ],
        HW_OPTIONS@.map_values(|c: Choice| c.0@) == seq![
            "auto"@,
            "nvidia"@,
            "amd"@,
            "intel"@,
            "cpu"@,
        ],
        BITRATE_MODE_OPTIONS@.map_values(|c: Choice| c.0@) == seq!["crf"@, "custom"@],
        CHANNEL_OPTIONS@.map_values(|c: Choice| c.0@) == seq!["stable"@, "nightly"@, "master"@],
        HISTORY_FILTER_OPTIONS@.map_values(|c: Choice| c.0@) == seq![
            "all"@,
            "download"@,
            "convert"@,
        ],
        THEME_OPTIONS@.map_values(|c: Choice| c.0@) == seq!["dark"@, "light"@],
{
}

/// Each category offers these codecs.
pub proof fn these_codecs_are_offered(c: Seq<char>)
    ensures
        codecs_of("standard"@).map_values(|c: Choice| c.0@) == seq![
            "h264"@,
            "h265"@,
            "av1"@,
            "vp9"@,
            "copy"@,
        ],
        codecs_of("delivery"@).map_values(|c: Choice| c.0@) == seq![
            "youtube"@,
            "youtube_av1"@,
            "social"@,
            "copy"@,
        ],
        codecs_of("audio"@).map_values(|c: Choice| c.0@) == seq!["audio_mp3"@, "audio_wav"@],
        c != "standard"@ && c != "delivery"@ && c != "audio"@ ==> codecs_of(c).map_values(
            |c: Choice| c.0@,
        ) == seq![
            "h264_allintra"@,
            "h264_handbrake"@,
            "vegas_fix"@,
            "prores422"@,
            "prores422hq"@,
            "dnxhr_hq"@,
        ],
{
    reveal_strlit("standard");
    reveal_strlit("delivery");
    reveal_strlit("audio");
    assert("standard"@[0] == 's' && "delivery"@[0] == 'd' && "audio"@[0] == 'a');
}

/// The sites that are asked as a browser, the version of yt-dlp that reads
/// Instagram again, and the name and version of this program.
pub proof fn sites_and_versions_are_these(h: Seq<char>)
    ensures
        any_within(h, IMPERSONATE_AUTO_HOSTS@) <==> within(h, "instagram.com"@) || within(
            h,
            "tiktok.com"@,
        ) || within(h, "twitter.com"@) || within(h, "//x.com"@) || within(h, "www.x.com"@)
            || within(h, "facebook.com"@) || within(h, "fb.watch"@),
        YTDLP_INSTAGRAM_FIX@ == "2026.07.04"@,
        APP_NAME@ == "Video Tool"@ && VERSION@ == "0.2.0"@,
{
    let l = IMPERSONATE_AUTO_HOSTS@;
    assert(l[0]@ == "instagram.com"@ && l[1]@ == "tiktok.com"@ && l[2]@ == "twitter.com"@);
    assert(l[3]@ == "//x.com"@ && l[4]@ == "www.x.com"@ && l[5]@ == "facebook.com"@);
    assert(l[6]@ == "fb.watch"@ && l.len() == 7);
}

/// The label of each choice is found under the name of the list and the value.
pub open spec fn is_keyed(options: Seq<Choice>, prefix: Seq<char>) -> bool {
    forall|i: int|
        0 <= i < options.len() ==> (#[trigger] options[i]).1@ == prefix + options[i].0@
}

proof fn lemma_quality_options()
    ensures
        is_keyed(QUALITY_OPTIONS@, "quality."@),
{
    reveal_strlit("quality.");
    reveal_strlit("best");
    reveal_strlit("quality.best");
    reveal_strlit("best_av1");
    reveal_strlit("quality.best_av1");
    reveal_strlit("2160");
    reveal_strlit("quality.2160");
    reveal_strlit("1440");
    reveal_strlit("quality.1440");
    reveal_strlit("1080");
    reveal_strlit("quality.1080");
    reveal_strlit("720");
    reveal_strlit("quality.720");
    reveal_strlit("480");
    reveal_strlit("quality.480");
    reveal_strlit("audio_wav");
    reveal_strlit("quality.audio_wav");
    reveal_strlit("audio");
    reveal_strlit("quality.audio");
    reveal_strlit("audio_opus");
    reveal_strlit("quality.audio_opus");
    assert("quality.best"@ =~= "quality."@ + "best"@);
    assert(QUALITY_OPTIONS@[0].0@ == "best"@ && QUALITY_OPTIONS@[0].1@ == "quality.best"@);
    assert("quality.best_av1"@ =~= "quality."@ + "best_av1"@);
    assert(QUALITY_OPTIONS@[1].0@ == "best_av1"@ && QUALITY_OPTIONS@[1].1@ == "quality.best_av1"@);
    assert("quality.2160"@ =~= "quality."@ + "2160"@);
    assert(QUALITY_OPTIONS@[2].0@ == "2160"@ && QUALITY_OPTIONS@[2].1@ == "quality.2160"@);
    assert("quality.1440"@ =~= "quality."@ + "1440"@);
    assert(QUALITY_OPTIONS@[3].0@ == "1440"@ && QUALITY_OPTIONS@[3].1@ == "quality.1440"@);
    assert("quality.1080"@ =~= "quality."@ + "1080"@);
    assert(QUALITY_OPTIONS@[4].0@ == "1080"@ && QUALITY_OPTIONS@[4].1@ == "quality.1080"@);
    assert("quality.720"@ =~= "quality."@ + "720"@);
    assert(QUALITY_OPTIONS@[5].0@ == "720"@ && QUALITY_OPTIONS@[5].1@ == "quality.720"@);
    assert("quality.480"@ =~= "quality."@ + "480"@);
    assert(QUALITY_OPTIONS@[6].0@ == "480"@ && QUALITY_OPTIONS@[6].1@ == "quality.480"@);
    assert("quality.audio_wav"@ =~= "quality."@ + "audio_wav"@);
    assert(QUALITY_OPTIONS@[7].0@ == "audio_wav"@ && QUALITY_OPTIONS@[7].1@ == "quality.audio_wav"@);
    assert("quality.audio"@ =~= "quality."@ + "audio"@);
    assert(QUALITY_OPTIONS@[8].0@ == "audio"@ && QUALITY_OPTIONS@[8].1@ == "quality.audio"@);
    assert("quality.audio_opus"@ =~= "quality."@ + "audio_opus"@);
    assert(QUALITY_OPTIONS@[9].0@ == "audio_opus"@ && QUALITY_OPTIONS@[9].1@ == "quality.audio_opus"@);
    assert(QUALITY_OPTIONS@.len() == 10);
}

proof fn lemma_conflict_options()
    ensures
        is_keyed(CONFLICT_OPTIONS@, "conflictopt."@),
{
    reveal_strlit("conflictopt.");
    reveal_strlit("ask");
    reveal_strlit("conflictopt.ask");
    reveal_strlit("rename");
    reveal_strlit("conflictopt.rename");
    reveal_strlit("overwrite");
    reveal_strlit("conflictopt.overwrite");
    reveal_strlit("skip");
    reveal_strlit("conflictopt.skip");
    assert("conflictopt.ask"@ =~= "conflictopt."@ + "ask"@);
    assert(CONFLICT_OPTIONS@[0].0@ == "ask"@ && CONFLICT_OPTIONS@[0].1@ == "conflictopt.ask"@);
    assert("conflictopt.rename"@ =~= "conflictopt."@ + "rename"@);
    assert(CONFLICT_OPTIONS@[1].0@ == "rename"@ && CONFLICT_OPTIONS@[1].1@ == "conflictopt.rename"@);
    assert("conflictopt.overwrite"@ =~= "conflictopt."@ + "overwrite"@);
    assert(CONFLICT_OPTIONS@[2].0@ == "overwrite"@ && CONFLICT_OPTIONS@[2].1@ == "conflictopt.overwrite"@);
    assert("conflictopt.skip"@ =~= "conflictopt."@ + "skip"@);
    assert(CONFLICT_OPTIONS@[3].0@ == "skip"@ && CONFLICT_OPTIONS@[3].1@ == "conflictopt.skip"@);
    assert(CONFLICT_OPTIONS@.len() == 4);
}

proof fn lemma_cookies_options()
    ensures
        is_keyed(COOKIES_OPTIONS@, "cookies."@),
{
    reveal_strlit("cookies.");
    reveal_strlit("none");
    reveal_strlit("cookies.none");
    reveal_strlit("firefox");
    reveal_strlit("cookies.firefox");
    reveal_strlit("cookiefile");
    reveal_strlit("cookies.cookiefile");
    reveal_strlit("chrome");
    reveal_strlit("cookies.chrome");
    reveal_strlit("edge");
    reveal_strlit("cookies.edge");
    reveal_strlit("brave");
    reveal_strlit("cookies.brave");
    reveal_strlit("safari");
    reveal_strlit("cookies.safari");
    assert("cookies.none"@ =~= "cookies."@ + "none"@);
    assert(COOKIES_OPTIONS@[0].0@ == "none"@ && COOKIES_OPTIONS@[0].1@ == "cookies.none"@);
    assert("cookies.firefox"@ =~= "cookies."@ + "firefox"@);
    assert(COOKIES_OPTIONS@[1].0@ == "firefox"@ && COOKIES_OPTIONS@[1].1@ == "cookies.firefox"@);
    assert("cookies.cookiefile"@ =~= "cookies."@ + "cookiefile"@);
    assert(COOKIES_OPTIONS@[2].0@ == "cookiefile"@ && COOKIES_OPTIONS@[2].1@ == "cookies.cookiefile"@);
    assert("cookies.chrome"@ =~= "cookies."@ + "chrome"@);
    assert(COOKIES_OPTIONS@[3].0@ == "chrome"@ && COOKIES_OPTIONS@[3].1@ == "cookies.chrome"@);
    assert("cookies.edge"@ =~= "cookies."@ + "edge"@);
    assert(COOKIES_OPTIONS@[4].0@ == "edge"@ && COOKIES_OPTIONS@[4].1@ == "cookies.edge"@);
    assert("cookies.brave"@ =~= "cookies."@ + "brave"@);
    assert(COOKIES_OPTIONS@[5].0@ == "brave"@ && COOKIES_OPTIONS@[5].1@ == "cookies.brave"@);
    assert("cookies.safari"@ =~= "cookies."@ + "safari"@);
    assert(COOKIES_OPTIONS@[6].0@ == "safari"@ && COOKIES_OPTIONS@[6].1@ == "cookies.safari"@);
    assert(COOKIES_OPTIONS@.len() == 7);
}

proof fn lemma_category_options()
    ensures
        is_keyed(CATEGORY_OPTIONS@, "cat."@),
{
    reveal_strlit("cat.");
    reveal_strlit("standard");
    reveal_strlit("cat.standard");
    reveal_strlit("editing");
    reveal_strlit("cat.editing");
    reveal_strlit("delivery");
    reveal_strlit("cat.delivery");
    reveal_strlit("audio");
    reveal_strlit("cat.audio");
    assert("cat.standard"@ =~= "cat."@ + "standard"@);
    assert(CATEGORY_OPTIONS@[0].0@ == "standard"@ && CATEGORY_OPTIONS@[0].1@ == "cat.standard"@);
    assert("cat.editing"@ =~= "cat."@ + "editing"@);
    assert(CATEGORY_OPTIONS@[1].0@ == "editing"@ && CATEGORY_OPTIONS@[1].1@ == "cat.editing"@);
    assert("cat.delivery"@ =~= "cat."@ + "delivery"@);
    assert(CATEGORY_OPTIONS@[2].0@ == "delivery"@ && CATEGORY_OPTIONS@[2].1@ == "cat.delivery"@);
    assert("cat.audio"@ =~= "cat."@ + "audio"@);
    assert(CATEGORY_OPTIONS@[3].0@ == "audio"@ && CATEGORY_OPTIONS@[3].1@ == "cat.audio"@);
    assert(CATEGORY_OPTIONS@.len() == 4);
}

proof fn lemma_hw_options()
    ensures
        is_keyed(HW_OPTIONS@, "hw."@),
{
    reveal_strlit("hw.");
    reveal_strlit("auto");
    reveal_strlit("hw.auto");
    reveal_strlit("nvidia");
    reveal_strlit("hw.nvidia");
    reveal_strlit("amd");
    reveal_strlit("hw.amd");
    reveal_strlit("intel");
    reveal_strlit("hw.intel");
    reveal_strlit("cpu");
    reveal_strlit("hw.cpu");
    assert("hw.auto"@ =~= "hw."@ + "auto"@);
    assert(HW_OPTIONS@[0].0@ == "auto"@ && HW_OPTIONS@[0].1@ == "hw.auto"@);
    assert("hw.nvidia"@ =~= "hw."@ + "nvidia"@);
    assert(HW_OPTIONS@[1].0@ == "nvidia"@ && HW_OPTIONS@[1].1@ == "hw.nvidia"@);
    assert("hw.amd"@ =~= "hw."@ + "amd"@);
    assert(HW_OPTIONS@[2].0@ == "amd"@ && HW_OPTIONS@[2].1@ == "hw.amd"@);
    assert("hw.intel"@ =~= "hw."@ + "intel"@);
    assert(HW_OPTIONS@[3].0@ == "intel"@ && HW_OPTIONS@[3].1@ == "hw.intel"@);
    assert("hw.cpu"@ =~= "hw."@ + "cpu"@);
    assert(HW_OPTIONS@[4].0@ == "cpu"@ && HW_OPTIONS@[4].1@ == "hw.cpu"@);
    assert(HW_OPTIONS@.len() == 5);
}

proof fn lemma_bitrate_mode_options()
    ensures
        is_keyed(BITRATE_MODE_OPTIONS@, "brmode."@),
{
    reveal_strlit("brmode.");
    reveal_strlit("crf");
    reveal_strlit("brmode.crf");
    reveal_strlit("custom");
    reveal_strlit("brmode.custom");
    assert("brmode.crf"@ =~= "brmode."@ + "crf"@);
    assert(BITRATE_MODE_OPTIONS@[0].0@ == "crf"@ && BITRATE_MODE_OPTIONS@[0].1@ == "brmode.crf"@);
    assert("brmode.custom"@ =~= "brmode."@ + "custom"@);
    assert(BITRATE_MODE_OPTIONS@[1].0@ == "custom"@ && BITRATE_MODE_OPTIONS@[1].1@ == "brmode.custom"@);
    assert(BITRATE_MODE_OPTIONS@.len() == 2);
}

proof fn lemma_channel_options()
    ensures
        is_keyed(CHANNEL_OPTIONS@, "channel."@),
{
    reveal_strlit("channel.");
    reveal_strlit("stable");
    reveal_strlit("channel.stable");
    reveal_strlit("nightly");
    reveal_strlit("channel.nightly");
    reveal_strlit("master");
    reveal_strlit("channel.master");
    assert("channel.stable"@ =~= "channel."@ + "stable"@);
    assert(CHANNEL_OPTIONS@[0].0@ == "stable"@ && CHANNEL_OPTIONS@[0].1@ == "channel.stable"@);
    assert("channel.nightly"@ =~= "channel."@ + "nightly"@);
    assert(CHANNEL_OPTIONS@[1].0@ == "nightly"@ && CHANNEL_OPTIONS@[1].1@ == "channel.nightly"@);
    assert("channel.master"@ =~= "channel."@ + "master"@);
    assert(CHANNEL_OPTIONS@[2].0@ == "master"@ && CHANNEL_OPTIONS@[2].1@ == "channel.master"@);
    assert(CHANNEL_OPTIONS@.len() == 3);
}

proof fn lemma_history_filter_options()
    ensures
        is_keyed(HISTORY_FILTER_OPTIONS@, "histf."@),
{
    reveal_strlit("histf.");
    reveal_strlit("all");
    reveal_strlit("histf.all");
    reveal_strlit("download");
    reveal_strlit("histf.download");
    reveal_strlit("convert");
    reveal_strlit("histf.convert");
    assert("histf.all"@ =~= "histf."@ + "all"@);
    assert(HISTORY_FILTER_OPTIONS@[0].0@ == "all"@ && HISTORY_FILTER_OPTIONS@[0].1@ == "histf.all"@);
    assert("histf.download"@ =~= "histf."@ + "download"@);
    assert(HISTORY_FILTER_OPTIONS@[1].0@ == "download"@ && HISTORY_FILTER_OPTIONS@[1].1@ == "histf.download"@);
    assert("histf.convert"@ =~= "histf."@ + "convert"@);
    assert(HISTORY_FILTER_OPTIONS@[2].0@ == "convert"@ && HISTORY_FILTER_OPTIONS@[2].1@ == "histf.convert"@);
    assert(HISTORY_FILTER_OPTIONS@.len() == 3);
}

proof fn lemma_theme_options()
    ensures
        is_keyed(THEME_OPTIONS@, "theme."@),
{
    reveal_strlit("theme.");
    reveal_strlit("dark");
    reveal_strlit("theme.dark");
    reveal_strlit("light");
    reveal_strlit("theme.light");
    assert("theme.dark"@ =~= "theme."@ + "dark"@);
    assert(THEME_OPTIONS@[0].0@ == "dark"@ && THEME_OPTIONS@[0].1@ == "theme.dark"@);
    assert("theme.light"@ =~= "theme."@ + "light"@);
    assert(THEME_OPTIONS@[1].0@ == "light"@ && THEME_OPTIONS@[1].1@ == "theme.light"@);
    assert(THEME_OPTIONS@.len() == 2);
}

/// Every choice is labelled by its own value, so no label stands beside another
/// choice.
pub proof fn a_choice_is_labelled_by_its_value()
    ensures
        is_keyed(QUALITY_OPTIONS@, "quality."@),
        is_keyed(CONFLICT_OPTIONS@, "conflictopt."@),
        is_keyed(COOKIES_OPTIONS@, "cookies."@),
        is_keyed(CATEGORY_OPTIONS@, "cat."@),
        is_keyed(HW_OPTIONS@, "hw."@),
        is_keyed(BITRATE_MODE_OPTIONS@, "brmode."@),
        is_keyed(CHANNEL_OPTIONS@, "channel."@),
        is_keyed(HISTORY_FILTER_OPTIONS@, "histf."@),
        is_keyed(THEME_OPTIONS@, "theme."@),
{
    lemma_quality_options();
    lemma_conflict_options();
    lemma_cookies_options();
    lemma_category_options();
    lemma_hw_options();
    lemma_bitrate_mode_options();
    lemma_channel_options();
    lemma_history_filter_options();
    lemma_theme_options();
}

} // verus!
