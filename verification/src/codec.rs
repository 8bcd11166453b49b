//! The encoder settings that each codec key stands for.

use crate::number::{i64_text, int_dec};
use crate::text::{opt_str, opt_text, owned, push_all, push_text, same, str_in, texts};
use vstd::prelude::*;

verus! {

// ---------------- encoder settings ----------------

/// The encoder settings of a profile.
#[verifier::ext_equal]
pub struct Recipe {
    pub video: Seq<char>,
    pub audio: Seq<char>,
    pub bitrate: Option<Seq<char>>,
    pub preset: Option<Seq<char>>,
    pub extra: Seq<Seq<char>>,
}

/// The encoder settings of a profile, as text.
pub struct Settings {
    pub video: String,
    pub audio: String,
    pub bitrate: Option<String>,
    pub preset: Option<String>,
    pub extra: Vec<String>,
}

impl View for Settings {
    type V = Recipe;

    open spec fn view(&self) -> Recipe {
        Recipe {
            video: self.video@,
            audio: self.audio@,
            bitrate: opt_text(self.bitrate),
            preset: opt_text(self.preset),
            extra: texts(self.extra@),
        }
    }
}

/// H.264 on the CPU with AAC sound: what a codec starts from.
pub open spec fn base_recipe() -> Recipe {
    Recipe {
        video: "libx264"@,
        audio: "aac"@,
        bitrate: Some("192k"@),
        preset: Some("medium"@),
        extra: seq![],
    }
}

/// The same with uncompressed sound, which has no bitrate to choose.
pub open spec fn with_pcm(r: Recipe) -> Recipe {
    Recipe { audio: "pcm_s16le"@, bitrate: None, ..r }
}

/// AV1: by the encoder of the chosen hardware, else by SVT-AV1.
pub open spec fn av1_recipe(hw: Seq<char>, crf: int, ten_bit: bool) -> Recipe {
    if hw == "nvidia"@ {
        Recipe {
            video: "av1_nvenc"@,
            preset: Some("p4"@),
            extra: seq![
                "-rc"@,
                "vbr"@,
                "-cq"@,
                int_dec(crf + 3),
                "-b:v"@,
                "0"@,
                "-pix_fmt"@,
                if ten_bit {
                    "p010le"@
                } else {
                    "yuv420p"@
                },
            ],
            ..base_recipe()
        }
    } else if hw == "intel"@ {
        Recipe {
            video: "av1_qsv"@,
            extra: seq!["-global_quality"@, int_dec(crf), "-pix_fmt"@, "nv12"@],
            ..base_recipe()
        }
    } else {
        Recipe {
            video: "libsvtav1"@,
            preset: None,
            extra: seq![
                "-preset"@,
                "6"@,
                "-crf"@,
                int_dec(crf),
                "-pix_fmt"@,
                if ten_bit {
                    "yuv420p10le"@
                } else {
                    "yuv420p"@
                },
            ],
            ..base_recipe()
        }
    }
}

/// AV1 for an upload to YouTube, at a fixed quality.
pub open spec fn youtube_av1_recipe(hw: Seq<char>) -> Recipe {
    if hw == "nvidia"@ {
        Recipe {
            video: "av1_nvenc"@,
            preset: Some("p5"@),
            bitrate: Some("320k"@),
            extra: seq![
                "-rc"@,
                "vbr"@,
                "-cq"@,
                "20"@,
                "-b:v"@,
                "0"@,
                "-pix_fmt"@,
                "yuv420p"@,
            ],
            ..base_recipe()
        }
    } else {
        Recipe {
            video: "libsvtav1"@,
            preset: None,
            bitrate: Some("320k"@),
            extra: seq!["-preset"@, "5"@, "-crf"@, "30"@, "-pix_fmt"@, "yuv420p"@],
            ..base_recipe()
        }
    }
}

/// H.264 or H.265 by NVENC.
pub open spec fn nvenc_recipe(h265: bool, crf: int) -> Recipe {
    Recipe {
        video: if h265 {
            "hevc_nvenc"@
        } else {
            "h264_nvenc"@
        },
        preset: Some("p4"@),
        extra: seq![
            "-rc"@,
            "vbr"@,
            "-cq"@,
            int_dec(crf + 3),
            "-b:v"@,
            "0"@,
            "-multipass"@,
            "qres"@,
            "-rc-lookahead"@,
            "32"@,
            "-spatial-aq"@,
            "1"@,
            "-temporal-aq"@,
            "1"@,
            "-bf"@,
            "3"@,
            "-refs"@,
            "3"@,
            "-profile:v"@,
            if h265 {
                "main"@
            } else {
                "high"@
            },
        ] + (if h265 {
            seq!["-tag:v"@, "hvc1"@, "-pix_fmt"@, "p010le"@]
        } else {
            seq!["-pix_fmt"@, "yuv420p"@]
        }),
        ..base_recipe()
    }
}

/// H.264, H.265 and every key that names no other codec.
pub open spec fn h26x_recipe(h265: bool, hw: Seq<char>, crf: int, ten_bit: bool) -> Recipe {
    if hw == "nvidia"@ {
        nvenc_recipe(h265, crf)
    } else if hw == "amd"@ {
        Recipe {
            video: if h265 {
                "hevc_amf"@
            } else {
                "h264_amf"@
            },
            preset: Some("balanced"@),
            extra: seq![
                "-qp_i"@,
                int_dec(crf),
                "-qp_p"@,
                int_dec(crf),
                "-qp_b"@,
                int_dec(crf),
                "-pix_fmt"@,
                "yuv420p"@,
            ],
            ..base_recipe()
        }
    } else if hw == "intel"@ {
        Recipe {
            video: if h265 {
                "hevc_qsv"@
            } else {
                "h264_qsv"@
            },
            extra: seq!["-global_quality"@, int_dec(crf), "-pix_fmt"@, "nv12"@],
            ..base_recipe()
        }
    } else if h265 {
        Recipe {
            video: "libx265"@,
            extra: seq![
                "-crf"@,
                int_dec(crf),
                "-pix_fmt"@,
                if ten_bit {
                    "yuv420p10le"@
                } else {
                    "yuv420p"@
                },
                "-tag:v"@,
                "hvc1"@,
                "-x265-params"@,
                "log-level=error"@,
            ],
            ..base_recipe()
        }
    } else {
        Recipe {
            extra: seq!["-crf"@, int_dec(crf), "-pix_fmt"@, "yuv420p"@],
            ..base_recipe()
        }
    }
}

/// The encoder settings that a codec key stands for, on hardware `hw`, at
/// quality `crf`, for a source of ten bits per sample or less.
pub open spec fn recipe(key: Seq<char>, hw: Seq<char>, crf: int, ten_bit: bool) -> Recipe {
    let base = base_recipe();
    if key == "audio_mp3"@ {
        Recipe { audio: "libmp3lame"@, bitrate: Some("320k"@), ..base }
    } else if key == "audio_wav"@ {
        with_pcm(base)
    } else if key == "copy"@ {
        Recipe { video: "copy"@, audio: "copy"@, ..base }
    } else if key == "vp9"@ {
        Recipe {
            video: "libvpx-vp9"@,
            extra: seq!["-crf"@, "30"@, "-b:v"@, "0"@, "-row-mt"@, "1"@],
            ..base
        }
    } else if key == "av1"@ {
        av1_recipe(hw, crf, ten_bit)
    } else if key == "h264_allintra"@ {
        Recipe {
            extra: seq![
                "-g"@,
                "1"@,
                "-bf"@,
                "0"@,
                "-crf"@,
                int_dec(crf),
                "-profile:v"@,
                "high"@,
                "-pix_fmt"@,
                "yuv420p"@,
            ],
            ..base
        }
    } else if key == "h264_handbrake"@ {
        Recipe {
            extra: seq![
                "-crf"@,
                int_dec(crf),
                "-profile:v"@,
                "high"@,
                "-pix_fmt"@,
                "yuv420p"@,
            ],
            ..base
        }
    } else if key == "vegas_fix"@ {
        with_pcm(
            Recipe {
                preset: Some("fast"@),
                extra: seq![
                    "-fps_mode"@,
                    "cfr"@,
                    "-r"@,
                    "30"@,
                    "-crf"@,
                    "16"@,
                    "-g"@,
                    "1"@,
                    "-bf"@,
                    "0"@,
                    "-pix_fmt"@,
                    "yuv420p"@,
                ],
                ..base
            },
        )
    } else if key == "prores422"@ {
        with_pcm(
            Recipe {
                video: "prores_ks"@,
                extra: seq!["-profile:v"@, "2"@, "-pix_fmt"@, "yuv422p10le"@],
                ..base
            },
        )
    } else if key == "prores422hq"@ {
        with_pcm(
            Recipe {
                video: "prores_ks"@,
                extra: seq!["-profile:v"@, "3"@, "-pix_fmt"@, "yuv422p10le"@],
                ..base
            },
        )
    } else if key == "dnxhr_hq"@ {
        with_pcm(
            Recipe {
                video: "dnxhd"@,
                extra: seq!["-profile:v"@, "dnxhr_hq"@, "-pix_fmt"@, "yuv422p"@],
                ..base
            },
        )
    } else if key == "youtube"@ {
        Recipe {
            preset: Some("slow"@),
            bitrate: Some("320k"@),
            extra: seq![
                "-crf"@,
                "18"@,
                "-profile:v"@,
                if ten_bit {
                    "high10"@
                } else {
                    "high"@
                },
                "-pix_fmt"@,
                if ten_bit {
                    "yuv420p10le"@
                } else {
                    "yuv420p"@
                },
            ],
            ..base
        }
    } else if key == "youtube_av1"@ {
        youtube_av1_recipe(hw)
    } else if key == "social"@ {
        Recipe {
            extra: seq!["-crf"@, "20"@, "-profile:v"@, "main"@, "-pix_fmt"@, "yuv420p"@],
            ..base
        }
    } else {
        h26x_recipe(key == "h265"@, hw, crf, ten_bit)
    }
}

fn settings(video: &str, audio: &str, bitrate: Option<&str>, preset: Option<&str>, extra: Vec<String>) -> (r:
    Settings)
    ensures
        r@ == (Recipe {
            video: video@,
            audio: audio@,
            bitrate: opt_str(bitrate),
            preset: opt_str(preset),
            extra: texts(extra@),
        }),
{
    Settings {
        video: video.to_owned(),
        audio: audio.to_owned(),
        bitrate: match bitrate {
            Some(b) => Some(b.to_owned()),
            None => None,
        },
        preset: match preset {
            Some(p) => Some(p.to_owned()),
            None => None,
        },
        extra,
    }
}

fn av1_settings(hw: &str, crf: i32, ten_bit: bool) -> (r: Settings)
    ensures
        r@ == av1_recipe(hw@, crf as int, ten_bit),
{
    let cq = i64_text(crf as i64 + 3);
    let q = i64_text(crf as i64);
    if same(hw, "nvidia") {
        let pix = if ten_bit {
            "p010le"
        } else {
            "yuv420p"
        };
        settings(
            "av1_nvenc",
            "aac",
            Some("192k"),
            Some("p4"),
            owned(&["-rc", "vbr", "-cq", cq.as_str(), "-b:v", "0", "-pix_fmt", pix]),
        )
    } else if same(hw, "intel") {
        settings(
            "av1_qsv",
            "aac",
            Some("192k"),
            Some("medium"),
            owned(&["-global_quality", q.as_str(), "-pix_fmt", "nv12"]),
        )
    } else {
        let pix = if ten_bit {
            "yuv420p10le"
        } else {
            "yuv420p"
        };
        settings(
            "libsvtav1",
            "aac",
            Some("192k"),
            None,
            owned(&["-preset", "6", "-crf", q.as_str(), "-pix_fmt", pix]),
        )
    }
}

fn youtube_av1_settings(hw: &str) -> (r: Settings)
    ensures
        r@ == youtube_av1_recipe(hw@),
{
    if same(hw, "nvidia") {
        settings(
            "av1_nvenc",
            "aac",
            Some("320k"),
            Some("p5"),
            owned(&["-rc", "vbr", "-cq", "20", "-b:v", "0", "-pix_fmt", "yuv420p"]),
        )
    } else {
        settings(
            "libsvtav1",
            "aac",
            Some("320k"),
            None,
            owned(&["-preset", "5", "-crf", "30", "-pix_fmt", "yuv420p"]),
        )
    }
}

fn nvenc_settings(h265: bool, crf: i32) -> (r: Settings)
    ensures
        r@ == nvenc_recipe(h265, crf as int),
{
    let cq = i64_text(crf as i64 + 3);
    let video = if h265 {
        "hevc_nvenc"
    } else {
        "h264_nvenc"
    };
    let profile = if h265 {
        "main"
    } else {
        "high"
    };
    let mut extra = owned(
        &[
            "-rc",
            "vbr",
            "-cq",
            cq.as_str(),
            "-b:v",
            "0",
            "-multipass",
            "qres",
            "-rc-lookahead",
            "32",
            "-spatial-aq",
            "1",
            "-temporal-aq",
            "1",
            "-bf",
            "3",
            "-refs",
            "3",
            "-profile:v",
            profile,
        ],
    );
    if h265 {
        push_all(&mut extra, &["-tag:v", "hvc1", "-pix_fmt", "p010le"]);
    } else {
        push_all(&mut extra, &["-pix_fmt", "yuv420p"]);
    }
    settings(video, "aac", Some("192k"), Some("p4"), extra)
}

fn h26x_settings(h265: bool, hw: &str, crf: i32, ten_bit: bool) -> (r: Settings)
    ensures
        r@ == h26x_recipe(h265, hw@, crf as int, ten_bit),
{
    let q = i64_text(crf as i64);
    if same(hw, "nvidia") {
        nvenc_settings(h265, crf)
    } else if same(hw, "amd") {
        let video = if h265 {
            "hevc_amf"
        } else {
            "h264_amf"
        };
        settings(
            video,
            "aac",
            Some("192k"),
            Some("balanced"),
            owned(
                &[
                    "-qp_i",
                    q.as_str(),
                    "-qp_p",
                    q.as_str(),
                    "-qp_b",
                    q.as_str(),
                    "-pix_fmt",
                    "yuv420p",
                ],
            ),
        )
    } else if same(hw, "intel") {
        let video = if h265 {
            "hevc_qsv"
        } else {
            "h264_qsv"
        };
        settings(
            video,
            "aac",
            Some("192k"),
            Some("medium"),
            owned(&["-global_quality", q.as_str(), "-pix_fmt", "nv12"]),
        )
    } else if h265 {
        let pix = if ten_bit {
            "yuv420p10le"
        } else {
            "yuv420p"
        };
        settings(
            "libx265",
            "aac",
            Some("192k"),
            Some("medium"),
            owned(
                &[
                    "-crf",
                    q.as_str(),
                    "-pix_fmt",
                    pix,
                    "-tag:v",
                    "hvc1",
                    "-x265-params",
                    "log-level=error",
                ],
            ),
        )
    } else {
        settings(
            "libx264",
            "aac",
            Some("192k"),
            Some("medium"),
            owned(&["-crf", q.as_str(), "-pix_fmt", "yuv420p"]),
        )
    }
}

/// The settings that a codec key stands for.
pub fn codec_settings(key: &str, hw: &str, crf: i32, ten_bit: bool) -> (r: Settings)
    ensures
        r@ == recipe(key@, hw@, crf as int, ten_bit),
{
    let q = i64_text(crf as i64);
    if same(key, "audio_mp3") {
        settings("libx264", "libmp3lame", Some("320k"), Some("medium"), owned(&[]))
    } else if same(key, "audio_wav") {
        settings("libx264", "pcm_s16le", None, Some("medium"), owned(&[]))
    } else if same(key, "copy") {
        settings("copy", "copy", Some("192k"), Some("medium"), owned(&[]))
    } else if same(key, "vp9") {
        settings(
            "libvpx-vp9",
            "aac",
            Some("192k"),
            Some("medium"),
            owned(&["-crf", "30", "-b:v", "0", "-row-mt", "1"]),
        )
    } else if same(key, "av1") {
        av1_settings(hw, crf, ten_bit)
    } else if same(key, "h264_allintra") {
        settings(
            "libx264",
            "aac",
            Some("192k"),
            Some("medium"),
            owned(
                &[
                    "-g",
                    "1",
                    "-bf",
                    "0",
                    "-crf",
                    q.as_str(),
                    "-profile:v",
                    "high",
                    "-pix_fmt",
                    "yuv420p",
                ],
            ),
        )
    } else if same(key, "h264_handbrake") {
        settings(
            "libx264",
            "aac",
            Some("192k"),
            Some("medium"),
            owned(&["-crf", q.as_str(), "-profile:v", "high", "-pix_fmt", "yuv420p"]),
        )
    } else if same(key, "vegas_fix") {
        settings(
            "libx264",
            "pcm_s16le",
            None,
            Some("fast"),
            owned(
                &[
                    "-fps_mode",
                    "cfr",
                    "-r",
                    "30",
                    "-crf",
                    "16",
                    "-g",
                    "1",
                    "-bf",
                    "0",
                    "-pix_fmt",
                    "yuv420p",
                ],
            ),
        )
    } else if same(key, "prores422") {
        settings(
            "prores_ks",
            "pcm_s16le",
            None,
            Some("medium"),
            owned(&["-profile:v", "2", "-pix_fmt", "yuv422p10le"]),
        )
    } else if same(key, "prores422hq") {
        settings(
            "prores_ks",
            "pcm_s16le",
            None,
            Some("medium"),
            owned(&["-profile:v", "3", "-pix_fmt", "yuv422p10le"]),
        )
    } else if same(key, "dnxhr_hq") {
        settings(
            "dnxhd",
            "pcm_s16le",
            None,
            Some("medium"),
            owned(&["-profile:v", "dnxhr_hq", "-pix_fmt", "yuv422p"]),
        )
    } else if same(key, "youtube") {
        let profile = if ten_bit {
            "high10"
        } else {
            "high"
        };
        let pix = if ten_bit {
            "yuv420p10le"
        } else {
            "yuv420p"
        };
        settings(
            "libx264",
            "aac",
            Some("320k"),
            Some("slow"),
            owned(&["-crf", "18", "-profile:v", profile, "-pix_fmt", pix]),
        )
    } else if same(key, "youtube_av1") {
        youtube_av1_settings(hw)
    } else if same(key, "social") {
        settings(
            "libx264",
            "aac",
            Some("192k"),
            Some("medium"),
            owned(&["-crf", "20", "-profile:v", "main", "-pix_fmt", "yuv420p"]),
        )
    } else {
        h26x_settings(same(key, "h265"), hw, crf, ten_bit)
    }
}

// ---------------- custom bitrate ----------------

/// The options that ask for a constant quality. Each takes one value.
pub const QUALITY_FLAGS: [&'static str; 6] = [
    "-crf",
    "-cq",
    "-global_quality",
    "-qp_i",
    "-qp_p",
    "-qp_b",
];

/// `arg` asks for a constant quality.
pub open spec fn is_quality_flag(arg: Seq<char>) -> bool {
    exists|i: int| 0 <= i < QUALITY_FLAGS@.len() && #[trigger] QUALITY_FLAGS@[i]@ == arg
}

/// `args` without the quality options and the value behind each.
pub open spec fn without_quality(args: Seq<Seq<char>>) -> Seq<Seq<char>>
    decreases args.len(),
{
    if args.len() == 0 {
        seq![]
    } else if is_quality_flag(args[0]) {
        if args.len() == 1 {
            seq![]
        } else {
            without_quality(args.skip(2))
        }
    } else {
        seq![args[0]] + without_quality(args.skip(1))
    }
}

/// Drops the quality options and their values.
pub fn drop_quality(args: &Vec<String>) -> (r: Vec<String>)
    ensures
        texts(r@) == without_quality(texts(args@)),
{
    let mut out: Vec<String> = Vec::new();
    let mut i: usize = 0;
    let n = args.len();
    let ghost all = texts(args@);
    assert(all.skip(0) =~= all);
    assert(texts(out@) + without_quality(all) =~= without_quality(all));
    while i < n
        invariant
            n == args@.len(),
            i <= n,
            all == texts(args@),
            without_quality(all) == texts(out@) + without_quality(all.skip(i as int)),
        decreases n - i,
    {
        let ghost rest = all.skip(i as int);
        assert(rest[0] == args@[i as int]@);
        if str_in(&QUALITY_FLAGS, args[i].as_str()) {
            if i + 1 < n {
                assert(rest.skip(2) =~= all.skip(i + 2));
                i += 2;
            } else {
                i = n;
            }
        } else {
            assert(rest.skip(1) =~= all.skip(i + 1));
            push_text(&mut out, args[i].as_str());
            i += 1;
        }
    }
    assert(without_quality(all.skip(n as int)) =~= seq![]);
    out
}

/// `n` halves, the fraction cut off.
pub open spec fn half_toward_zero(n: int) -> int {
    if n < 0 {
        -((-n) / 2)
    } else {
        n / 2
    }
}

/// The options of a fixed bitrate of `br` megabits per second: half as much
/// again as a ceiling, twice as much as a buffer.
pub open spec fn bitrate_args(br: int) -> Seq<Seq<char>> {
    seq![
        "-b:v"@,
        int_dec(br).push('M'),
        "-maxrate"@,
        int_dec(half_toward_zero(3 * br)).push('M'),
        "-bufsize"@,
        int_dec(2 * br).push('M'),
    ]
}

fn megabits(n: i64) -> (r: String)
    ensures
        r@ == int_dec(n as int).push('M'),
{
    let mut s = i64_text(n);
    s.push('M');
    s
}

/// Appends the options of a fixed bitrate.
pub fn push_bitrate(out: &mut Vec<String>, br: i32)
    ensures
        texts(final(out)@) == texts(old(out)@) + bitrate_args(br as int),
{
    let three: i64 = 3 * br as i64;
    let max: i64 = if three < 0 {
        -((-three) / 2)
    } else {
        three / 2
    };
    let b = megabits(br as i64);
    let m = megabits(max);
    let f = megabits(2 * br as i64);
    push_all(out, &["-b:v", b.as_str(), "-maxrate", m.as_str(), "-bufsize", f.as_str()]);
    assert(texts(out@) =~= texts(old(out)@) + bitrate_args(br as int));
}

/// The video codecs whose quality is not up for choice: neither a preset nor a
/// bitrate applies to them.
pub open spec fn is_fixed_codec(video: Seq<char>) -> bool {
    video == "copy"@ || video == "prores_ks"@ || video == "dnxhd"@
}

/// Whether a video codec has no quality to choose.
pub fn fixed_codec(video: &str) -> (r: bool)
    ensures
        r == is_fixed_codec(video@),
{
    same(video, "copy") || same(video, "prores_ks") || same(video, "dnxhd")
}

// ---------------- laws ----------------

/// None of the options that are left when the quality goes asks for a quality.
pub proof fn no_quality_is_left(args: Seq<Seq<char>>)
    ensures
        forall|i: int|
            0 <= i < without_quality(args).len() ==> !is_quality_flag(
                #[trigger] without_quality(args)[i],
            ),
    decreases args.len(),
{
    if args.len() == 0 {
    } else if is_quality_flag(args[0]) {
        if args.len() > 1 {
            no_quality_is_left(args.skip(2));
            assert(without_quality(args) == without_quality(args.skip(2)));
        } else {
            assert(without_quality(args).len() == 0);
        }
    } else {
        no_quality_is_left(args.skip(1));
        let r = without_quality(args);
        let t = without_quality(args.skip(1));
        assert forall|i: int| 0 <= i < r.len() implies !is_quality_flag(#[trigger] r[i]) by {
            if i > 0 {
                assert(r[i] == t[i - 1]);
            } else {
                assert(r[i] == args[0]);
            }
        }
    }
}

proof fn lemma_quality_flags(arg: Seq<char>)
    requires
        is_quality_flag(arg),
    ensures
        arg == "-crf"@ || arg == "-cq"@ || arg == "-global_quality"@ || arg == "-qp_i"@ || arg
            == "-qp_p"@ || arg == "-qp_b"@,
{
    let i = choose|i: int| 0 <= i < QUALITY_FLAGS@.len() && #[trigger] QUALITY_FLAGS@[i]@ == arg;
    assert(i == 0 || i == 1 || i == 2 || i == 3 || i == 4 || i == 5);
}

/// The options of a fixed bitrate ask for no quality.
pub proof fn lemma_bitrate_is_no_quality(br: int)
    ensures
        forall|i: int|
            0 <= i < bitrate_args(br).len() ==> !is_quality_flag(#[trigger] bitrate_args(br)[i]),
{
    let b = bitrate_args(br);
    assert forall|i: int| 0 <= i < b.len() implies !is_quality_flag(#[trigger] b[i]) by {
        reveal_strlit("-crf");
        reveal_strlit("-cq");
        reveal_strlit("-global_quality");
        reveal_strlit("-qp_i");
        reveal_strlit("-qp_p");
        reveal_strlit("-qp_b");
        reveal_strlit("-b:v");
        reveal_strlit("-maxrate");
        reveal_strlit("-bufsize");
        if is_quality_flag(b[i]) {
            lemma_quality_flags(b[i]);
            assert(b[i].last() != 'M');
            if i == 0 {
                assert("-b:v"@[1] == 'b');
                assert(b[i][1] != 'b');
            } else if i == 2 {
                assert("-maxrate"@[1] == 'm');
                assert(b[i][1] != 'm');
            } else if i == 4 {
                assert("-bufsize"@[1] == 'b');
                assert(b[i][1] != 'b');
            }
        }
    }
}

/// The encoders of NVIDIA work with a variable bitrate around the quality that
/// was asked for, at the fourth of their presets.
pub proof fn nvidia_encoders_are_set_this_way(h265: bool, crf: int, ten_bit: bool)
    ensures
        nvenc_recipe(h265, crf).preset == Some("p4"@),
        nvenc_recipe(h265, crf).extra.take(18) == seq![
            "-rc"@,
            "vbr"@,
            "-cq"@,
            int_dec(crf + 3),
            "-b:v"@,
            "0"@,
            "-multipass"@,
            "qres"@,
            "-rc-lookahead"@,
            "32"@,
            "-spatial-aq"@,
            "1"@,
            "-temporal-aq"@,
            "1"@,
            "-bf"@,
            "3"@,
            "-refs"@,
            "3"@,
        ],
        av1_recipe("nvidia"@, crf, ten_bit).preset == Some("p4"@),
        av1_recipe("nvidia"@, crf, ten_bit).extra.take(6) == seq![
            "-rc"@,
            "vbr"@,
            "-cq"@,
            int_dec(crf + 3),
            "-b:v"@,
            "0"@,
        ],
        youtube_av1_recipe("nvidia"@).preset == Some("p5"@),
        youtube_av1_recipe("nvidia"@).extra == seq![
            "-rc"@,
            "vbr"@,
            "-cq"@,
            "20"@,
            "-b:v"@,
            "0"@,
            "-pix_fmt"@,
            "yuv420p"@,
        ],
{
}

/// The other encoders are set by the quality alone, at the preset that suits
/// them.
pub proof fn other_encoders_are_set_this_way(h265: bool, hw: Seq<char>, crf: int, ten_bit: bool)
    ensures
        h26x_recipe(h265, "amd"@, crf, ten_bit).preset == Some("balanced"@),
        h26x_recipe(h265, "amd"@, crf, ten_bit).extra.take(6) == seq![
            "-qp_i"@,
            int_dec(crf),
            "-qp_p"@,
            int_dec(crf),
            "-qp_b"@,
            int_dec(crf),
        ],
        h26x_recipe(h265, "intel"@, crf, ten_bit).extra.take(2) == seq![
            "-global_quality"@,
            int_dec(crf),
        ],
        av1_recipe("intel"@, crf, ten_bit).extra.take(2) == seq!["-global_quality"@, int_dec(crf)],
        hw != "nvidia"@ && hw != "amd"@ && hw != "intel"@ ==> h26x_recipe(true, hw, crf, ten_bit)
            .extra.skip(4) == seq!["-tag:v"@, "hvc1"@, "-x265-params"@, "log-level=error"@],
        hw != "nvidia"@ && hw != "intel"@ ==> av1_recipe(hw, crf, ten_bit).extra.take(4) == seq![
            "-preset"@,
            "6"@,
            "-crf"@,
            int_dec(crf),
        ],
        hw != "nvidia"@ ==> youtube_av1_recipe(hw).extra.take(4) == seq![
            "-preset"@,
            "5"@,
            "-crf"@,
            "30"@,
        ],
{
    reveal_strlit("nvidia");
    reveal_strlit("amd");
    reveal_strlit("intel");
    assert("nvidia"@.len() == 6 && "amd"@.len() == 3 && "intel"@.len() == 5);
}

} // verus!
