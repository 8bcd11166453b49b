//! FFmpeg command building.

use crate::codec::{
    bitrate_args, codec_settings, drop_quality, fixed_codec, is_fixed_codec, is_quality_flag,
    lemma_bitrate_is_no_quality, no_quality_is_left, push_bitrate, recipe, without_quality, Recipe,
};
use crate::dict::Dict;
use crate::number::{dec, dec3, div_nearest, nearest, u64_text, u64_text3};
use crate::path::{file_name_at, is_part, path_file_name, route_of};
use crate::text::{
    contains, ends_with, lowered, opt_str, opt_text, push_all, push_copies, push_string, push_text,
    same, str_in, text_in, texts, to_lowercase, within,
};
use crate::util::{audio_ext_of_codec, convert_audio_ext, sound_has_the_extension_of_its_format};
use vstd::prelude::*;

verus! {

// ---------------- parameters ----------------

/// What the Convert tab asks for. Times are in nanoseconds from the start of
/// the source.
#[derive(Clone, Debug)]
pub struct ConvertParams {
    pub codec_key: String,
    pub hw_setting: String,
    pub crf: i32,
    pub use_custom: bool,
    pub custom_br: i32,
    pub preserve_color: bool,
    /// Section of the source to keep. `None` on either side means "from the
    /// beginning" / "to the end".
    pub trim_start: Option<i64>,
    pub trim_end: Option<i64>,
}

impl Default for ConvertParams {
    fn default() -> (r: Self)
        ensures
            r.codec_key@ == Seq::<char>::empty(),
            r.hw_setting@ == Seq::<char>::empty(),
            r.crf == 0,
            !r.use_custom,
            r.custom_br == 0,
            !r.preserve_color,
            r.trim_start is None,
            r.trim_end is None,
    {
        ConvertParams {
            codec_key: String::new(),
            hw_setting: String::new(),
            crf: 0,
            use_custom: false,
            custom_br: 0,
            preserve_color: false,
            trim_start: None,
            trim_end: None,
        }
    }
}

/// Where the section starts, with "from the beginning" as zero.
pub open spec fn start_or_zero(start: Option<i64>) -> int {
    match start {
        Some(s) => s as int,
        None => 0,
    }
}

/// The length of the section between two bounds: there is one only when an end
/// is given that comes after the start.
pub open spec fn section_len(start: Option<i64>, end: Option<i64>) -> Option<int> {
    match end {
        Some(e) => if e > start_or_zero(start) {
            Some(e - start_or_zero(start))
        } else {
            None
        },
        None => None,
    }
}

/// A start of the section that cuts something off.
pub open spec fn effective_start(start: Option<i64>) -> Option<int> {
    match start {
        Some(s) => if s > 0 {
            Some(s as int)
        } else {
            None
        },
        None => None,
    }
}

/// The contents of an optional unsigned number.
pub open spec fn opt_int(o: Option<u64>) -> Option<int> {
    match o {
        Some(n) => Some(n as int),
        None => None,
    }
}

impl ConvertParams {
    /// Length of the selected section, or `None` when nothing was trimmed.
    ///
    /// Both bounds are input options, so ffmpeg is told where to start and
    /// how much to read - which keeps "end" meaning a position in the source
    /// rather than an offset into the trimmed result.
    pub fn trim_duration(&self) -> (r: Option<u64>)
        ensures
            opt_int(r) == section_len(self.trim_start, self.trim_end),
    {
        let start: i64 = match self.trim_start {
            Some(s) => s,
            None => 0,
        };
        match self.trim_end {
            Some(end) => if end > start {
                Some((end as i128 - start as i128) as u64)
            } else {
                None
            },
            None => None,
        }
    }

    /// Whether any part of the source is cut away.
    pub fn has_trim(&self) -> (r: bool)
        ensures
            r == (effective_start(self.trim_start) is Some || section_len(
                self.trim_start,
                self.trim_end,
            ) is Some),
    {
        let starts_late = match self.trim_start {
            Some(s) => s > 0,
            None => false,
        };
        starts_late || self.trim_duration().is_some()
    }
}

// ---------------- the profile ----------------

/// Everything a conversion is run with.
#[derive(Debug)]
pub struct Profile {
    pub codec_key: String,
    pub audio_only: bool,
    pub video_codec: String,
    pub audio_codec: String,
    pub audio_bitrate: Option<String>,
    pub preset: Option<String>,
    pub extra: Vec<String>,
    pub use_custom: bool,
    pub custom_br: i32,
    pub crf: i32,
    pub hw_resolved: String,
    pub hw_requested: String,
    /// Where the kept section starts, in nanoseconds from the source's start.
    pub trim_start: Option<u64>,
    /// How long that section is; `None` runs to the end of the file.
    pub trim_duration: Option<u64>,
}

/// The source has ten bits per sample.
pub open spec fn is_ten_bit(pix_fmt: Option<Seq<char>>) -> bool {
    match pix_fmt {
        Some(p) => within(p, "10"@) || within(p, "p010"@),
        None => false,
    }
}

/// The encoder options of a request: those of the codec, with a bitrate in
/// place of the quality where one was asked for and the codec has a choice.
pub open spec fn extra_args(params: ConvertParams, r: Recipe) -> Seq<Seq<char>> {
    if params.use_custom && audio_ext_of_codec(params.codec_key@) is None && !is_fixed_codec(
        r.video,
    ) {
        without_quality(r.extra) + bitrate_args(params.custom_br as int)
    } else {
        r.extra
    }
}

/// `p` is the profile of `params` on hardware `hw`, for a source in `pix_fmt`.
pub open spec fn is_profile_of(
    p: Profile,
    params: ConvertParams,
    hw: Seq<char>,
    pix_fmt: Option<Seq<char>>,
) -> bool {
    let r = recipe(params.codec_key@, hw, params.crf as int, is_ten_bit(pix_fmt));
    &&& p.codec_key@ == params.codec_key@
    &&& p.audio_only == (audio_ext_of_codec(params.codec_key@) is Some)
    &&& p.video_codec@ == r.video
    &&& p.audio_codec@ == r.audio
    &&& opt_text(p.audio_bitrate) == r.bitrate
    &&& opt_text(p.preset) == r.preset
    &&& texts(p.extra@) == extra_args(params, r)
    &&& p.use_custom == params.use_custom
    &&& p.custom_br == params.custom_br
    &&& p.crf == params.crf
    &&& p.hw_resolved@ == hw
    &&& p.hw_requested@ == params.hw_setting@
    &&& opt_int(p.trim_start) == effective_start(params.trim_start)
    &&& opt_int(p.trim_duration) == section_len(params.trim_start, params.trim_end)
}

/// The hardware that a setting stands for: what was detected where the setting
/// is "auto", else the setting itself.
pub open spec fn resolved_hw(setting: Seq<char>, detected: Seq<char>) -> Seq<char> {
    if setting == "auto"@ {
        detected
    } else {
        setting
    }
}

/// The profile of a conversion. `detected_hw` is the hardware encoder that was
/// found on this machine, which counts only where the setting is "auto".
pub fn build_convert_args(
    detected_hw: &str,
    params: &ConvertParams,
    source_pix_fmt: Option<&str>,
) -> (r: Profile)
    ensures
        is_profile_of(
            r,
            *params,
            resolved_hw(params.hw_setting@, detected_hw@),
            opt_str(source_pix_fmt),
        ),
{
    let hw: &str = if same(params.hw_setting.as_str(), "auto") {
        detected_hw
    } else {
        params.hw_setting.as_str()
    };
    let ten_bit = match source_pix_fmt {
        Some(p) => contains(p, "10") || contains(p, "p010"),
        None => false,
    };
    let audio_only = convert_audio_ext(params.codec_key.as_str()).is_some();
    let s = codec_settings(params.codec_key.as_str(), hw, params.crf, ten_bit);
    let extra = if params.use_custom && !audio_only && !fixed_codec(s.video.as_str()) {
        let mut out = drop_quality(&s.extra);
        push_bitrate(&mut out, params.custom_br);
        out
    } else {
        s.extra
    };
    let trim_start: Option<u64> = match params.trim_start {
        Some(t) => if t > 0 {
            Some(t as u64)
        } else {
            None
        },
        None => None,
    };
    Profile {
        codec_key: params.codec_key.clone(),
        audio_only,
        video_codec: s.video,
        audio_codec: s.audio,
        audio_bitrate: s.bitrate,
        preset: s.preset,
        extra,
        use_custom: params.use_custom,
        custom_br: params.custom_br,
        crf: params.crf,
        hw_resolved: hw.to_owned(),
        hw_requested: params.hw_setting.clone(),
        trim_start,
        trim_duration: params.trim_duration(),
    }
}

// ---------------- the command ----------------

/// Nanoseconds in a second, times the least number that takes all the bits of a
/// double.
pub const FULL_DOUBLE: u128 = 4_503_599_627_370_496_000_000_000;

/// The milliseconds that `v` nanoseconds over `unit` come to, read as the double
/// that is nearest in seconds; doubling both leaves the length as it is, until
/// the double is a whole number of seconds over `unit`.
pub open spec fn millis_over(v: nat, unit: nat) -> nat
    decreases 2 * FULL_DOUBLE - v,
{
    if v == 0 || v >= FULL_DOUBLE {
        nearest(1000 * nearest(v, 1_000_000_000), unit)
    } else {
        millis_over(2 * v, 2 * unit)
    }
}

/// A length of time in seconds with three decimals. What is rounded to the
/// nearest is the double that stands for the length, so half a millisecond goes
/// up or down with it.
pub open spec fn seconds3(ns: nat) -> Seq<char> {
    let ms = millis_over(ns, 1);
    dec(ms / 1000).push('.') + dec3(ms % 1000)
}

fn double_millis(ns: u64) -> (r: u64)
    ensures
        r == millis_over(ns as nat, 1),
{
    if ns == 0 {
        return 0;
    }
    let mut v: u128 = ns as u128;
    let mut unit: u128 = 1;
    while v < FULL_DOUBLE
        invariant
            0 < ns,
            0 < v < 2 * FULL_DOUBLE,
            0 < unit,
            v == ns * unit,
            unit <= v,
            millis_over(ns as nat, 1) == millis_over(v as nat, unit as nat),
        decreases 2 * FULL_DOUBLE - v,
    {
        assert(ns * (2 * unit) == 2 * (ns * unit)) by (nonlinear_arith);
        v = 2 * v;
        unit = 2 * unit;
    }
    let seconds: u128 = div_nearest(v, 1_000_000_000);
    let ms: u128 = div_nearest(1000 * seconds, unit);
    proof {
        lemma_millis_fit(ns as nat, v as nat, unit as nat);
    }
    ms as u64
}

proof fn lemma_millis_fit(ns: nat, v: nat, unit: nat)
    requires
        0 < unit,
        ns <= u64::MAX,
        v == ns * unit,
        v >= FULL_DOUBLE,
    ensures
        nearest(1000 * nearest(v, 1_000_000_000), unit) <= u64::MAX,
{
    let s = nearest(v, 1_000_000_000);
    assert(s <= v / 1_000_000_000 + 1);
    let m = 1000 * s;
    let q = m / unit;
    assert(nearest(m, unit) <= q + 1);
    assert(m <= v / 1_000_000 + 1000);
    assert(m <= v);
    assert(q <= ns) by (nonlinear_arith)
        requires
            q == m / unit,
            m <= v,
            v == ns * unit,
            unit > 0,
    ;
    if q == u64::MAX {
        assert(m < v / 2);
        assert(2 * q <= ns) by (nonlinear_arith)
            requires
                q == m / unit,
                2 * m <= v,
                v == ns * unit,
                unit > 0,
        ;
    }
}

fn seconds3_text(ns: u64) -> (r: String)
    ensures
        r@ == seconds3(ns as nat),
{
    let ms = double_millis(ns);
    let mut s = u64_text(ms / 1000);
    s.push('.');
    s.append(u64_text3(ms % 1000).as_str());
    s
}

/// The start and the length of the kept section, as far as each is there.
pub open spec fn seek_spec(p: Profile) -> Seq<Seq<char>> {
    (match p.trim_start {
        Some(s) => seq!["-ss"@, seconds3(s as nat)],
        None => seq![],
    }) + (match p.trim_duration {
        Some(d) => seq!["-t"@, seconds3(d as nat)],
        None => seq![],
    })
}

/// The `-ss`/`-t` pair, as input options so the decoder skips ahead instead
/// of decoding and discarding everything before the cut.
pub fn seek_args(profile: &Profile) -> (r: Vec<String>)
    ensures
        texts(r@) == seek_spec(*profile),
{
    let mut out: Vec<String> = Vec::new();
    if let Some(start) = profile.trim_start {
        push_text(&mut out, "-ss");
        push_string(&mut out, seconds3_text(start));
    }
    if let Some(dur) = profile.trim_duration {
        push_text(&mut out, "-t");
        push_string(&mut out, seconds3_text(dur));
    }
    assert(texts(out@) =~= seek_spec(*profile));
    out
}

/// What every command begins with: quiet, never asking, reporting progress on
/// standard output.
pub open spec fn common_args(ffmpeg: Seq<char>) -> Seq<Seq<char>> {
    seq![
        ffmpeg,
        "-hide_banner"@,
        "-nostdin"@,
        "-y"@,
        "-progress"@,
        "pipe:1"@,
        "-stats_period"@,
        "0.5"@,
        "-nostats"@,
    ]
}

/// The audio bitrate, where the codec has one.
pub open spec fn audio_bitrate_args(p: Profile) -> Seq<Seq<char>> {
    match p.audio_bitrate {
        Some(b) => seq!["-b:a"@, b@],
        None => seq![],
    }
}

fn push_audio_bitrate(out: &mut Vec<String>, p: &Profile)
    ensures
        texts(final(out)@) == texts(old(out)@) + audio_bitrate_args(*p),
{
    if let Some(b) = &p.audio_bitrate {
        push_all(out, &["-b:a", b.as_str()]);
    }
    assert(texts(out@) =~= texts(old(out)@) + audio_bitrate_args(*p));
}

/// The command of an audio-only conversion.
pub open spec fn audio_command(
    ffmpeg: Seq<char>,
    input: Seq<char>,
    output: Seq<char>,
    p: Profile,
) -> Seq<Seq<char>> {
    (common_args(ffmpeg) + seek_spec(p) + seq![
        "-i"@,
        input,
        "-vn"@,
        "-map"@,
        "0:a:0"@,
        "-map_metadata"@,
        "0"@,
        "-c:a"@,
        p.audio_codec@,
    ] + audio_bitrate_args(p)).push(output)
}

/// A part of the source is cut away.
pub open spec fn is_trimmed(p: Profile) -> bool {
    p.trim_start is Some || p.trim_duration is Some
}

/// Which streams are kept. Chapter marks of the source point into the part
/// that was cut away, so a trimmed file gets none rather than wrong ones.
pub open spec fn map_args(p: Profile) -> Seq<Seq<char>> {
    seq![
        "-map"@,
        "0:v:0"@,
        "-map"@,
        "0:a?"@,
        "-map_metadata"@,
        "0"@,
        "-map_chapters"@,
        if is_trimmed(p) {
            "-1"@
        } else {
            "0"@
        },
    ]
}

/// The plain pixel format, where the options of the codec name none.
pub open spec fn pix_fmt_args(p: Profile) -> Seq<Seq<char>> {
    if p.video_codec@ != "copy"@ && !texts(p.extra@).contains("-pix_fmt"@) {
        seq!["-pix_fmt"@, "yuv420p"@]
    } else {
        seq![]
    }
}

fn push_pix_fmt(out: &mut Vec<String>, p: &Profile)
    ensures
        texts(final(out)@) == texts(old(out)@) + pix_fmt_args(*p),
{
    if !same(p.video_codec.as_str(), "copy") && !text_in(&p.extra, "-pix_fmt") {
        push_all(out, &["-pix_fmt", "yuv420p"]);
    }
    assert(texts(out@) =~= texts(old(out)@) + pix_fmt_args(*p));
}

/// The preset, where there is one and the codec has a choice.
pub open spec fn preset_args(p: Profile) -> Seq<Seq<char>> {
    match p.preset {
        Some(s) => if is_fixed_codec(p.video_codec@) {
            seq![]
        } else {
            seq!["-preset"@, s@]
        },
        None => seq![],
    }
}

fn push_preset(out: &mut Vec<String>, p: &Profile)
    ensures
        texts(final(out)@) == texts(old(out)@) + preset_args(*p),
{
    if let Some(s) = &p.preset {
        if !fixed_codec(p.video_codec.as_str()) {
            push_all(out, &["-preset", s.as_str()]);
        }
    }
    assert(texts(out@) =~= texts(old(out)@) + preset_args(*p));
}

/// The color properties that can be carried over, each with its option.
pub const COLOR_FLAGS: [(&'static str, &'static str); 4] = [
    ("color_primaries", "-color_primaries"),
    ("color_trc", "-color_trc"),
    ("color_space", "-colorspace"),
    ("color_range", "-color_range"),
];

/// The option of one color property, where the source tells it.
pub open spec fn color_arg(meta: Dict, i: int) -> Seq<Seq<char>> {
    match meta.at(COLOR_FLAGS@[i].0@) {
        Some(v) => seq![COLOR_FLAGS@[i].1@, v],
        None => seq![],
    }
}

/// The options of the first `n` color properties.
pub open spec fn color_args(meta: Dict, n: int) -> Seq<Seq<char>>
    decreases n,
{
    if n <= 0 {
        seq![]
    } else {
        color_args(meta, n - 1) + color_arg(meta, n - 1)
    }
}

fn push_color(out: &mut Vec<String>, meta: &Dict)
    requires
        meta.wf(),
    ensures
        texts(final(out)@) == texts(old(out)@) + color_args(*meta, COLOR_FLAGS@.len() as int),
{
    let ghost before = texts(out@);
    assert(before + color_args(*meta, 0) =~= before);
    for i in 0..COLOR_FLAGS.len()
        invariant
            meta.wf(),
            texts(out@) == before + color_args(*meta, i as int),
    {
        if let Some(v) = meta.get(COLOR_FLAGS[i].0) {
            push_all(out, &[COLOR_FLAGS[i].1, v]);
        }
        assert(texts(out@) =~= before + color_args(*meta, i + 1));
    }
}

/// The color options of a command: none where the stream is copied or the
/// colors are not to be kept.
pub open spec fn kept_color_args(p: Profile, meta: Dict, preserve: bool) -> Seq<Seq<char>> {
    if p.video_codec@ != "copy"@ && preserve {
        color_args(meta, COLOR_FLAGS@.len() as int)
    } else {
        seq![]
    }
}

/// The software encoders that are told to use every core.
pub const THREADED_CODECS: [&'static str; 4] = ["libx264", "libx265", "libvpx-vp9", "libsvtav1"];

pub open spec fn thread_args(p: Profile) -> Seq<Seq<char>> {
    if exists|i: int|
        0 <= i < THREADED_CODECS@.len() && #[trigger] THREADED_CODECS@[i]@ == p.video_codec@ {
        seq!["-threads"@, "0"@]
    } else {
        seq![]
    }
}

/// The audio codecs that keep the sound as it is sampled.
pub const UNRESAMPLED_CODECS: [&'static str; 5] = [
    "copy",
    "pcm_s16le",
    "pcm_s32le",
    "pcm_f32le",
    "pcm_s24le",
];

pub open spec fn resample_args(p: Profile) -> Seq<Seq<char>> {
    if exists|i: int|
        0 <= i < UNRESAMPLED_CODECS@.len() && #[trigger] UNRESAMPLED_CODECS@[i]@ == p.audio_codec@ {
        seq![]
    } else {
        seq!["-ar"@, "48000"@, "-ac"@, "2"@]
    }
}

/// The sound of a video conversion.
pub open spec fn sound_args(p: Profile) -> Seq<Seq<char>> {
    if p.video_codec@ == "copy"@ {
        seq!["-c:a"@, "copy"@]
    } else {
        seq!["-c:a"@, p.audio_codec@] + audio_bitrate_args(p) + resample_args(p)
    }
}

fn push_sound(out: &mut Vec<String>, p: &Profile)
    ensures
        texts(final(out)@) == texts(old(out)@) + sound_args(*p),
{
    if same(p.video_codec.as_str(), "copy") {
        push_all(out, &["-c:a", "copy"]);
    } else {
        push_all(out, &["-c:a", p.audio_codec.as_str()]);
        push_audio_bitrate(out, p);
        if !str_in(&UNRESAMPLED_CODECS, p.audio_codec.as_str()) {
            push_all(out, &["-ar", "48000", "-ac", "2"]);
        }
    }
    assert(texts(out@) =~= texts(old(out)@) + sound_args(*p));
}

/// An output whose lowercase name is `lower` is a container with its index at
/// the end, which a player on the web wants at the front.
pub open spec fn is_indexed_container(lower: Seq<char>) -> bool {
    ".mp4"@.is_suffix_of(lower) || ".m4v"@.is_suffix_of(lower) || ".mov"@.is_suffix_of(lower)
}

/// Whether the lowercase name `lower` belongs to a container with an index.
pub fn indexed_container(lower: &str) -> (r: bool)
    ensures
        r == is_indexed_container(lower@),
{
    ends_with(lower, ".mp4") || ends_with(lower, ".m4v") || ends_with(lower, ".mov")
}

pub open spec fn faststart_args(p: Profile, lower: Seq<char>) -> Seq<Seq<char>> {
    if is_indexed_container(lower) && p.video_codec@ != "copy"@ {
        seq!["-movflags"@, "+faststart"@]
    } else {
        seq![]
    }
}

/// The command of a video conversion; `lower` is the output in lowercase.
pub open spec fn video_command(
    ffmpeg: Seq<char>,
    input: Seq<char>,
    output: Seq<char>,
    lower: Seq<char>,
    p: Profile,
    meta: Dict,
    preserve: bool,
) -> Seq<Seq<char>> {
    (common_args(ffmpeg) + seq!["-fflags"@, "+genpts"@] + seek_spec(p) + seq!["-i"@, input]
        + map_args(p) + pix_fmt_args(p) + seq!["-c:v"@, p.video_codec@] + preset_args(p) + texts(
        p.extra@,
    ) + kept_color_args(p, meta, preserve) + thread_args(p) + sound_args(p) + faststart_args(
        p,
        lower,
    )).push(output)
}

/// The command that runs a conversion; `lower` is the output in lowercase.
pub open spec fn ffmpeg_command(
    ffmpeg: Seq<char>,
    input: Seq<char>,
    output: Seq<char>,
    lower: Seq<char>,
    p: Profile,
    meta: Dict,
    preserve: bool,
) -> Seq<Seq<char>> {
    if p.audio_only {
        audio_command(ffmpeg, input, output, p)
    } else {
        video_command(ffmpeg, input, output, lower, p, meta, preserve)
    }
}

fn push_common(out: &mut Vec<String>, ffmpeg: &str)
    requires
        old(out)@.len() == 0,
    ensures
        texts(final(out)@) == common_args(ffmpeg@),
{
    push_all(
        out,
        &[
            ffmpeg,
            "-hide_banner",
            "-nostdin",
            "-y",
            "-progress",
            "pipe:1",
            "-stats_period",
            "0.5",
            "-nostats",
        ],
    );
    assert(texts(out@) =~= common_args(ffmpeg@));
}

fn push_map(out: &mut Vec<String>, p: &Profile)
    ensures
        texts(final(out)@) == texts(old(out)@) + map_args(*p),
{
    let chapters = if p.trim_start.is_some() || p.trim_duration.is_some() {
        "-1"
    } else {
        "0"
    };
    push_all(
        out,
        &["-map", "0:v:0", "-map", "0:a?", "-map_metadata", "0", "-map_chapters", chapters],
    );
    assert(texts(out@) =~= texts(old(out)@) + map_args(*p));
}

fn push_kept_color(out: &mut Vec<String>, p: &Profile, meta: &Dict, preserve: bool)
    requires
        meta.wf(),
    ensures
        texts(final(out)@) == texts(old(out)@) + kept_color_args(*p, *meta, preserve),
{
    if !same(p.video_codec.as_str(), "copy") && preserve {
        push_color(out, meta);
    }
    assert(texts(out@) =~= texts(old(out)@) + kept_color_args(*p, *meta, preserve));
}

fn push_threads(out: &mut Vec<String>, p: &Profile)
    ensures
        texts(final(out)@) == texts(old(out)@) + thread_args(*p),
{
    if str_in(&THREADED_CODECS, p.video_codec.as_str()) {
        push_all(out, &["-threads", "0"]);
    }
    assert(texts(out@) =~= texts(old(out)@) + thread_args(*p));
}

fn push_faststart(out: &mut Vec<String>, p: &Profile, lower: &str)
    ensures
        texts(final(out)@) == texts(old(out)@) + faststart_args(*p, lower@),
{
    if indexed_container(lower) && !same(p.video_codec.as_str(), "copy") {
        push_all(out, &["-movflags", "+faststart"]);
    }
    assert(texts(out@) =~= texts(old(out)@) + faststart_args(*p, lower@));
}

/// An option and its value.
fn push_pair(out: &mut Vec<String>, flag: &str, value: &str)
    ensures
        texts(final(out)@) == texts(old(out)@) + seq![flag@, value@],
{
    push_all(out, &[flag, value]);
    assert(texts(out@) =~= texts(old(out)@) + seq![flag@, value@]);
}

fn audio_cmd(ffmpeg: &str, input_file: &str, output_file: &str, p: &Profile) -> (r: Vec<String>)
    ensures
        texts(r@) == audio_command(ffmpeg@, input_file@, output_file@, *p),
{
    let seek = seek_args(p);
    let mut cmd: Vec<String> = Vec::new();
    push_common(&mut cmd, ffmpeg);
    push_copies(&mut cmd, &seek);
    let ghost before = texts(cmd@);
    push_all(
        &mut cmd,
        &[
            "-i",
            input_file,
            "-vn",
            "-map",
            "0:a:0",
            "-map_metadata",
            "0",
            "-c:a",
            p.audio_codec.as_str(),
        ],
    );
    assert(texts(cmd@) =~= before + seq![
        "-i"@,
        input_file@,
        "-vn"@,
        "-map"@,
        "0:a:0"@,
        "-map_metadata"@,
        "0"@,
        "-c:a"@,
        p.audio_codec@,
    ]);
    push_audio_bitrate(&mut cmd, p);
    push_text(&mut cmd, output_file);
    cmd
}

/// The command that runs a conversion, given the lowercase form of the output.
pub fn ffmpeg_cmd_for(
    ffmpeg: &str,
    input_file: &str,
    output_file: &str,
    lower: &str,
    profile: &Profile,
    color_meta: &Dict,
    preserve_color: bool,
) -> (r: Vec<String>)
    requires
        color_meta.wf(),
    ensures
        texts(r@) == ffmpeg_command(
            ffmpeg@,
            input_file@,
            output_file@,
            lower@,
            *profile,
            *color_meta,
            preserve_color,
        ),
{
    if profile.audio_only {
        return audio_cmd(ffmpeg, input_file, output_file, profile);
    }
    let seek = seek_args(profile);
    let mut cmd: Vec<String> = Vec::new();
    push_common(&mut cmd, ffmpeg);
    push_pair(&mut cmd, "-fflags", "+genpts");
    push_copies(&mut cmd, &seek);
    push_pair(&mut cmd, "-i", input_file);
    push_map(&mut cmd, profile);
    push_pix_fmt(&mut cmd, profile);
    push_pair(&mut cmd, "-c:v", profile.video_codec.as_str());
    push_preset(&mut cmd, profile);
    push_copies(&mut cmd, &profile.extra);
    push_kept_color(&mut cmd, profile, color_meta, preserve_color);
    push_threads(&mut cmd, profile);
    push_sound(&mut cmd, profile);
    push_faststart(&mut cmd, profile, lower);
    push_text(&mut cmd, output_file);
    cmd
}

/// The command that runs a conversion.
pub fn build_ffmpeg_cmd(
    ffmpeg: &str,
    input_file: &str,
    output_file: &str,
    profile: &Profile,
    color_meta: &Dict,
    preserve_color: bool,
) -> (r: Vec<String>)
    requires
        color_meta.wf(),
    ensures
        texts(r@) == ffmpeg_command(
            ffmpeg@,
            input_file@,
            output_file@,
            lowered(output_file@),
            *profile,
            *color_meta,
            preserve_color,
        ),
{
    let lower = to_lowercase(output_file);
    ffmpeg_cmd_for(
        ffmpeg,
        input_file,
        output_file,
        lower.as_str(),
        profile,
        color_meta,
        preserve_color,
    )
}

// ---------------- names ----------------

/// `r` is the file name of a path that is read in one way, empty where it has
/// none.
pub open spec fn is_file_name_in(r: Seq<char>, path: Seq<char>, windows: bool) -> bool {
    &&& r == (match file_name_at(path, windows) {
        Some(n) => n,
        None => Seq::empty(),
    })
    &&& r.len() > 0 ==> is_part(r, path)
}

/// `r` is the file name of a path, empty where it has none.
pub open spec fn is_file_name(r: Seq<char>, path: Seq<char>) -> bool {
    exists|windows: bool| is_file_name_in(r, path, windows)
}

/// The file name of a path, empty where it has none.
pub fn file_name(path: &std::path::PathBuf) -> (r: String)
    ensures
        is_file_name_in(r@, route_of(*path).text, route_of(*path).windows),
{
    match path_file_name(path) {
        Some(n) => n,
        None => String::new(),
    }
}

// ---------------- laws ----------------

/// A section that ends at a position in the source has the length that leads
/// from its start to that position, and that length is not zero. An end that is
/// not after the start is no bound at all.
pub proof fn section_ends_where_asked(start: Option<i64>, end: Option<i64>)
    ensures
        match section_len(start, end) {
            Some(len) => len > 0 && end is Some && start_or_zero(start) + len == end->0,
            None => end is Some ==> end->0 <= start_or_zero(start),
        },
{
}

/// With a bitrate of one's own, a codec that has a choice is given that bitrate
/// and no quality to aim for.
pub proof fn custom_bitrate_replaces_quality(
    p: Profile,
    params: ConvertParams,
    hw: Seq<char>,
    pix_fmt: Option<Seq<char>>,
)
    requires
        is_profile_of(p, params, hw, pix_fmt),
        params.use_custom,
        !p.audio_only,
        !is_fixed_codec(p.video_codec@),
    ensures
        forall|i: int| 0 <= i < p.extra@.len() ==> !is_quality_flag(#[trigger] p.extra@[i]@),
        bitrate_args(params.custom_br as int).is_suffix_of(texts(p.extra@)),
{
    let r = recipe(params.codec_key@, hw, params.crf as int, is_ten_bit(pix_fmt));
    let kept = without_quality(r.extra);
    let b = bitrate_args(params.custom_br as int);
    no_quality_is_left(r.extra);
    lemma_bitrate_is_no_quality(params.custom_br as int);
    assert(texts(p.extra@) == kept + b);
    assert forall|i: int| 0 <= i < p.extra@.len() implies !is_quality_flag(
        #[trigger] p.extra@[i]@,
    ) by {
        assert(texts(p.extra@)[i] == p.extra@[i]@);
        if i < kept.len() {
            assert((kept + b)[i] == kept[i]);
        } else {
            assert((kept + b)[i] == b[i - kept.len()]);
        }
    }
    assert((kept + b).subrange((kept + b).len() - b.len(), (kept + b).len() as int) =~= b);
}

/// The start and the length of the cut are input options: they stand directly
/// before the input, in an audio conversion as in a video conversion.
pub proof fn cut_stands_before_the_input(
    ffmpeg: Seq<char>,
    input: Seq<char>,
    output: Seq<char>,
    lower: Seq<char>,
    p: Profile,
    meta: Dict,
    preserve: bool,
)
    ensures
        ({
            let cmd = ffmpeg_command(ffmpeg, input, output, lower, p, meta, preserve);
            let at: int = if p.audio_only {
                9
            } else {
                11
            };
            let n = seek_spec(p).len();
            &&& at + n + 2 <= cmd.len()
            &&& cmd.subrange(at, at + n) == seek_spec(p)
            &&& cmd[at + n] == "-i"@
            &&& cmd[at + n + 1] == input
        }),
{
    let n = seek_spec(p).len() as int;
    if p.audio_only {
        let head = common_args(ffmpeg);
        let cmd = audio_command(ffmpeg, input, output, p);
        let rest = seq![
            "-i"@,
            input,
            "-vn"@,
            "-map"@,
            "0:a:0"@,
            "-map_metadata"@,
            "0"@,
            "-c:a"@,
            p.audio_codec@,
        ];
        let start = head + seek_spec(p) + rest;
        let all = start + audio_bitrate_args(p);
        assert(cmd == all.push(output));
        assert(start[9 + n] == rest[0]);
        assert(start[9 + n + 1] == rest[1]);
        assert(cmd.subrange(9, 9 + n) =~= seek_spec(p));
    } else {
        let head = common_args(ffmpeg) + seq!["-fflags"@, "+genpts"@];
        let start = head + seek_spec(p) + seq!["-i"@, input];
        let cmd = video_command(ffmpeg, input, output, lower, p, meta, preserve);
        assert(head.len() == 11);
        assert(start[11 + n] == "-i"@);
        assert(start[11 + n + 1] == input);
        assert(cmd.len() >= start.len());
        assert(cmd.take(start.len() as int) =~= start);
        assert(cmd[11 + n] == cmd.take(start.len() as int)[11 + n]);
        assert(cmd[11 + n + 1] == cmd.take(start.len() as int)[11 + n + 1]);
        assert(start.subrange(11, 11 + n) =~= seek_spec(p));
        assert(cmd.subrange(11, 11 + n) =~= start.subrange(11, 11 + n));
    }
}

/// A conversion that cuts nothing away seeks nowhere and keeps the chapter
/// marks; one that does drops them.
pub proof fn only_a_cut_drops_chapters(p: Profile)
    ensures
        is_trimmed(p) <==> seek_spec(p).len() > 0,
        is_trimmed(p) ==> map_args(p).last() == "-1"@,
        !is_trimmed(p) ==> map_args(p).last() == "0"@,
{
}

/// The program stands first and the output last, whatever the profile.
pub proof fn command_ends_with_the_output(
    ffmpeg: Seq<char>,
    input: Seq<char>,
    output: Seq<char>,
    lower: Seq<char>,
    p: Profile,
    meta: Dict,
    preserve: bool,
)
    ensures
        ({
            let cmd = ffmpeg_command(ffmpeg, input, output, lower, p, meta, preserve);
            cmd.len() > 1 && cmd[0] == ffmpeg && cmd.last() == output
        }),
{
    cut_stands_before_the_input(ffmpeg, input, output, lower, p, meta, preserve);
}

/// A stream that is copied is neither encoded anew nor tagged: no pixel format,
/// preset, color, thread or index option is given for it.
pub proof fn copying_touches_nothing(p: Profile, meta: Dict, preserve: bool, lower: Seq<char>)
    requires
        p.video_codec@ == "copy"@,
    ensures
        pix_fmt_args(p).len() == 0,
        preset_args(p).len() == 0,
        kept_color_args(p, meta, preserve).len() == 0,
        thread_args(p).len() == 0,
        faststart_args(p, lower).len() == 0,
        sound_args(p) == seq!["-c:a"@, "copy"@],
{
    reveal_strlit("copy");
    reveal_strlit("libx264");
    reveal_strlit("libx265");
    reveal_strlit("libvpx-vp9");
    reveal_strlit("libsvtav1");
    if exists|i: int|
        0 <= i < THREADED_CODECS@.len() && #[trigger] THREADED_CODECS@[i]@ == p.video_codec@ {
        let i = choose|i: int|
            0 <= i < THREADED_CODECS@.len() && #[trigger] THREADED_CODECS@[i]@ == p.video_codec@;
        assert(i == 0 || i == 1 || i == 2 || i == 3);
        assert(THREADED_CODECS@[i]@.len() > 4);
    }
}

/// ffmpeg is started without its banner, asks nothing, and reports its progress
/// on its output twice a second.
pub proof fn ffmpeg_is_started_this_way(ffmpeg: Seq<char>)
    ensures
        common_args(ffmpeg) == seq![
            ffmpeg,
            "-hide_banner"@,
            "-nostdin"@,
            "-y"@,
            "-progress"@,
            "pipe:1"@,
            "-stats_period"@,
            "0.5"@,
            "-nostats"@,
        ],
{
}

/// Sound is made in stereo at 48 kilohertz, unless it is copied or kept as it
/// was sampled.
pub proof fn sound_is_resampled_unless_it_is_kept(p: Profile)
    ensures
        ({
            let a = p.audio_codec@;
            let kept = a == "copy"@ || a == "pcm_s16le"@ || a == "pcm_s32le"@ || a == "pcm_f32le"@
                || a == "pcm_s24le"@;
            &&& kept ==> resample_args(p).len() == 0
            &&& !kept ==> resample_args(p) == seq!["-ar"@, "48000"@, "-ac"@, "2"@]
        }),
{
    let l = UNRESAMPLED_CODECS@;
    assert(l[0]@ == "copy"@ && l[1]@ == "pcm_s16le"@ && l[2]@ == "pcm_s32le"@);
    assert(l[3]@ == "pcm_f32le"@ && l[4]@ == "pcm_s24le"@ && l.len() == 5);
}

/// A profile is made of what was set: the codec and its encoder on the hardware
/// that is used, the quality or the bitrate, and the section that is kept.
pub proof fn a_profile_is_made_of_what_was_set(
    p: Profile,
    params: ConvertParams,
    hw: Seq<char>,
    pix_fmt: Option<Seq<char>>,
)
    requires
        is_profile_of(p, params, hw, pix_fmt),
    ensures
        ({
            let r = recipe(params.codec_key@, hw, params.crf as int, is_ten_bit(pix_fmt));
            let sound = params.codec_key@ == "audio_mp3"@ || params.codec_key@ == "audio_wav"@;
            let rated = params.use_custom && !sound && r.video != "copy"@ && r.video != "prores_ks"@
                && r.video != "dnxhd"@;
            &&& p.codec_key@ == params.codec_key@
            &&& p.audio_only <==> sound
            &&& p.video_codec@ == r.video && p.audio_codec@ == r.audio
            &&& opt_text(p.audio_bitrate) == r.bitrate && opt_text(p.preset) == r.preset
            &&& rated ==> texts(p.extra@) == without_quality(r.extra) + bitrate_args(
                params.custom_br as int,
            )
            &&& !rated ==> texts(p.extra@) == r.extra
            &&& p.crf == params.crf && p.custom_br == params.custom_br
            &&& p.use_custom <==> params.use_custom
            &&& p.hw_resolved@ == hw && p.hw_requested@ == params.hw_setting@
        }),
        params.trim_start is None || params.trim_start->0 <= 0 ==> p.trim_start is None,
        params.trim_start is Some && params.trim_start->0 > 0 ==> p.trim_start is Some
            && p.trim_start->0 == params.trim_start->0,
        params.trim_end is None ==> p.trim_duration is None,
        params.trim_start matches Some(a) ==> (params.trim_end matches Some(b) ==> (b > a
            ==> p.trim_duration is Some && p.trim_duration->0 == b - a) && (b <= a
            ==> p.trim_duration is None)),
        params.trim_start is None ==> (params.trim_end matches Some(b) ==> (b > 0
            ==> p.trim_duration is Some && p.trim_duration->0 == b)),
{
    sound_has_the_extension_of_its_format(params.codec_key@);
}

} // verus!
