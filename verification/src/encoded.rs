//! What a conversion asks FFmpeg for, option by option.

use crate::binaries::encoder_in;
use crate::codec::{
    av1_recipe, bitrate_args, h26x_recipe, half_toward_zero, is_quality_flag, nvenc_recipe, recipe,
    without_quality, youtube_av1_recipe, QUALITY_FLAGS,
};
use crate::command::{
    asks, gives, has_value, is_option, lacks, lemma_strung_asks, lemma_strung_contains,
    lemma_strung_gives, lemma_strung_lacks, mark, says, strung,
};
use crate::convert::{
    audio_bitrate_args, color_arg, color_args, common_args, faststart_args, ffmpeg_command,
    is_profile_of, is_ten_bit, kept_color_args, map_args, millis_over, pix_fmt_args, preset_args,
    resample_args, resolved_hw, seconds3, seek_spec, sound_args, thread_args, ConvertParams,
    Profile, COLOR_FLAGS, FULL_DOUBLE, THREADED_CODECS,
};
use crate::dict::Dict;
use crate::number::{dec, dec3, dec_reads_back, int_dec, nearest};
use crate::text::{is_at, is_digit, opt_text, texts, within};
use vstd::prelude::*;

verus! {

// ---------------- telling words apart ----------------

proof fn lemma_keys_a()
    ensures
        mark("audio_mp3"@) == 10505111109,
        mark("audio_wav"@) == 10511811109,
        mark("copy"@) == 11112111204,
        mark("vp9"@) == 11205711203,
        mark("av1"@) == 11804911803,
        mark("h264_allintra"@) == 9509710813,
        mark("h264_handbrake"@) == 9510111014,
        mark("vegas_fix"@) == 9712011509,
{
    reveal(mark);
    reveal_strlit("audio_mp3");
    reveal_strlit("audio_wav");
    reveal_strlit("copy");
    reveal_strlit("vp9");
    reveal_strlit("av1");
    reveal_strlit("h264_allintra");
    reveal_strlit("h264_handbrake");
    reveal_strlit("vegas_fix");
}

proof fn lemma_keys_b()
    ensures
        mark("prores422"@) == 11405010109,
        mark("prores422hq"@) == 11411311511,
        mark("dnxhr_hq"@) == 12011311408,
        mark("youtube"@) == 11710111607,
        mark("youtube_av1"@) == 11604909811,
        mark("social"@) == 9910810506,
        mark("h264"@) == 5005205404,
        mark("h265"@) == 5005305404,
{
    reveal(mark);
    reveal_strlit("prores422");
    reveal_strlit("prores422hq");
    reveal_strlit("dnxhr_hq");
    reveal_strlit("youtube");
    reveal_strlit("youtube_av1");
    reveal_strlit("social");
    reveal_strlit("h264");
    reveal_strlit("h265");
}

proof fn lemma_keys()
    ensures
        mark("audio_mp3"@) == 10505111109,
        mark("audio_wav"@) == 10511811109,
        mark("copy"@) == 11112111204,
        mark("vp9"@) == 11205711203,
        mark("av1"@) == 11804911803,
        mark("h264_allintra"@) == 9509710813,
        mark("h264_handbrake"@) == 9510111014,
        mark("vegas_fix"@) == 9712011509,
        mark("prores422"@) == 11405010109,
        mark("prores422hq"@) == 11411311511,
        mark("dnxhr_hq"@) == 12011311408,
        mark("youtube"@) == 11710111607,
        mark("youtube_av1"@) == 11604909811,
        mark("social"@) == 9910810506,
        mark("h264"@) == 5005205404,
        mark("h265"@) == 5005305404,
{
    lemma_keys_a();
    lemma_keys_b();
}

proof fn lemma_hardware()
    ensures
        mark("nvidia"@) == 10509710006,
        mark("amd"@) == 10910010903,
        mark("intel"@) == 11010811605,
        mark("cpu"@) == 11211711203,
{
    reveal(mark);
    reveal_strlit("nvidia");
    reveal_strlit("amd");
    reveal_strlit("intel");
    reveal_strlit("cpu");
}

proof fn lemma_encoders_a()
    ensures
        mark("libx264"@) == 9805212007,
        mark("libx265"@) == 9805312007,
        mark("libvpx-vp9"@) == 11805712010,
        mark("libsvtav1"@) == 11504911809,
        mark("h264_nvenc"@) == 5209911010,
        mark("hevc_nvenc"@) == 9909911010,
        mark("h264_amf"@) == 5410209508,
        mark("hevc_amf"@) == 11810209508,
{
    reveal(mark);
    reveal_strlit("libx264");
    reveal_strlit("libx265");
    reveal_strlit("libvpx-vp9");
    reveal_strlit("libsvtav1");
    reveal_strlit("h264_nvenc");
    reveal_strlit("hevc_nvenc");
    reveal_strlit("h264_amf");
    reveal_strlit("hevc_amf");
}

proof fn lemma_encoders_b()
    ensures
        mark("h264_qsv"@) == 5411809508,
        mark("hevc_qsv"@) == 11811809508,
        mark("av1_nvenc"@) == 9509911009,
        mark("av1_qsv"@) == 4911809507,
        mark("prores_ks"@) == 11411510109,
        mark("dnxhd"@) == 11010012005,
        mark("copy"@) == 11112111204,
{
    reveal(mark);
    reveal_strlit("h264_qsv");
    reveal_strlit("hevc_qsv");
    reveal_strlit("av1_nvenc");
    reveal_strlit("av1_qsv");
    reveal_strlit("prores_ks");
    reveal_strlit("dnxhd");
    reveal_strlit("copy");
}

proof fn lemma_encoders()
    ensures
        mark("libx264"@) == 9805212007,
        mark("libx265"@) == 9805312007,
        mark("libvpx-vp9"@) == 11805712010,
        mark("libsvtav1"@) == 11504911809,
        mark("h264_nvenc"@) == 5209911010,
        mark("hevc_nvenc"@) == 9909911010,
        mark("h264_amf"@) == 5410209508,
        mark("hevc_amf"@) == 11810209508,
        mark("h264_qsv"@) == 5411809508,
        mark("hevc_qsv"@) == 11811809508,
        mark("av1_nvenc"@) == 9509911009,
        mark("av1_qsv"@) == 4911809507,
        mark("prores_ks"@) == 11411510109,
        mark("dnxhd"@) == 11010012005,
        mark("copy"@) == 11112111204,
{
    lemma_encoders_a();
    lemma_encoders_b();
}

proof fn lemma_sounds()
    ensures
        mark("aac"@) == 9709909703,
        mark("pcm_s16le"@) == 9510111509,
        mark("libmp3lame"@) == 10910105110,
        mark("copy"@) == 11112111204,
{
    reveal(mark);
    reveal_strlit("aac");
    reveal_strlit("pcm_s16le");
    reveal_strlit("libmp3lame");
    reveal_strlit("copy");
}

proof fn lemma_options_a()
    ensures
        mark("-hide_banner"@) == 10111409812 && is_option("-hide_banner"@),
        mark("-nostdin"@) == 11111011608 && is_option("-nostdin"@),
        mark("-y"@) == 4512112102 && is_option("-y"@),
        mark("-progress"@) == 11111510309 && is_option("-progress"@),
        mark("-stats_period"@) == 11610009513 && is_option("-stats_period"@),
        mark("-nostats"@) == 11111511608 && is_option("-nostats"@),
        mark("-i"@) == 4510510502 && is_option("-i"@),
        mark("-vn"@) == 11811011803 && is_option("-vn"@),
        mark("-map"@) == 10911209704 && is_option("-map"@),
        mark("-map_metadata"@) == 9509710113 && is_option("-map_metadata"@),
{
    reveal(mark);
    reveal_strlit("-hide_banner");
    reveal_strlit("-nostdin");
    reveal_strlit("-y");
    reveal_strlit("-progress");
    reveal_strlit("-stats_period");
    reveal_strlit("-nostats");
    reveal_strlit("-i");
    reveal_strlit("-vn");
    reveal_strlit("-map");
    reveal_strlit("-map_metadata");
}

proof fn lemma_options_b()
    ensures
        mark("-c:a"@) == 9909705804 && is_option("-c:a"@),
        mark("-b:a"@) == 9809705804 && is_option("-b:a"@),
        mark("-map_chapters"@) == 9511510413 && is_option("-map_chapters"@),
        mark("-color_primaries"@) == 11411511416 && is_option("-color_primaries"@),
        mark("-color_trc"@) == 10809911410 && is_option("-color_trc"@),
        mark("-colorspace"@) == 10810111411 && is_option("-colorspace"@),
        mark("-color_range"@) == 11110109512 && is_option("-color_range"@),
        mark("-threads"@) == 10411510108 && is_option("-threads"@),
        mark("-ar"@) == 9711409703 && is_option("-ar"@),
        mark("-ac"@) == 9709909703 && is_option("-ac"@),
{
    reveal(mark);
    reveal_strlit("-c:a");
    reveal_strlit("-b:a");
    reveal_strlit("-map_chapters");
    reveal_strlit("-color_primaries");
    reveal_strlit("-color_trc");
    reveal_strlit("-colorspace");
    reveal_strlit("-color_range");
    reveal_strlit("-threads");
    reveal_strlit("-ar");
    reveal_strlit("-ac");
}

proof fn lemma_options_c()
    ensures
        mark("-movflags"@) == 11811510209 && is_option("-movflags"@),
        mark("-fflags"@) == 10211510807 && is_option("-fflags"@),
        mark("-c:v"@) == 9911805804 && is_option("-c:v"@),
        mark("-ss"@) == 11511511503 && is_option("-ss"@),
        mark("-t"@) == 4511611602 && is_option("-t"@),
        mark("-rc"@) == 11409911403 && is_option("-rc"@),
        mark("-cq"@) == 9911309903 && is_option("-cq"@),
        mark("-b:v"@) == 9811805804 && is_option("-b:v"@),
        mark("-multipass"@) == 10811510510 && is_option("-multipass"@),
        mark("-rc-lookahead"@) == 10810011113 && is_option("-rc-lookahead"@),
{
    reveal(mark);
    reveal_strlit("-movflags");
    reveal_strlit("-fflags");
    reveal_strlit("-c:v");
    reveal_strlit("-ss");
    reveal_strlit("-t");
    reveal_strlit("-rc");
    reveal_strlit("-cq");
    reveal_strlit("-b:v");
    reveal_strlit("-multipass");
    reveal_strlit("-rc-lookahead");
}

proof fn lemma_options_d()
    ensures
        mark("-spatial-aq"@) == 9711310511 && is_option("-spatial-aq"@),
        mark("-temporal-aq"@) == 11211311412 && is_option("-temporal-aq"@),
        mark("-bf"@) == 9810209803 && is_option("-bf"@),
        mark("-refs"@) == 11411510105 && is_option("-refs"@),
        mark("-profile:v"@) == 11111810510 && is_option("-profile:v"@),
        mark("-tag:v"@) == 9711810306 && is_option("-tag:v"@),
        mark("-qp_i"@) == 11310511205 && is_option("-qp_i"@),
        mark("-qp_p"@) == 11311211205 && is_option("-qp_p"@),
        mark("-qp_b"@) == 11309811205 && is_option("-qp_b"@),
        mark("-global_quality"@) == 9712109515 && is_option("-global_quality"@),
{
    reveal(mark);
    reveal_strlit("-spatial-aq");
    reveal_strlit("-temporal-aq");
    reveal_strlit("-bf");
    reveal_strlit("-refs");
    reveal_strlit("-profile:v");
    reveal_strlit("-tag:v");
    reveal_strlit("-qp_i");
    reveal_strlit("-qp_p");
    reveal_strlit("-qp_b");
    reveal_strlit("-global_quality");
}

proof fn lemma_options_e()
    ensures
        mark("-crf"@) == 9910211404 && is_option("-crf"@),
        mark("-x265-params"@) == 5311511212 && is_option("-x265-params"@),
        mark("-row-mt"@) == 11111611907 && is_option("-row-mt"@),
        mark("-g"@) == 4510310302 && is_option("-g"@),
        mark("-fps_mode"@) == 11510109509 && is_option("-fps_mode"@),
        mark("-r"@) == 4511411402 && is_option("-r"@),
        mark("-pix_fmt"@) == 10511609508 && is_option("-pix_fmt"@),
        mark("-preset"@) == 11411610107 && is_option("-preset"@),
        mark("-maxrate"@) == 9710111408 && is_option("-maxrate"@),
        mark("-bufsize"@) == 11710111508 && is_option("-bufsize"@),
{
    reveal(mark);
    reveal_strlit("-crf");
    reveal_strlit("-x265-params");
    reveal_strlit("-row-mt");
    reveal_strlit("-g");
    reveal_strlit("-fps_mode");
    reveal_strlit("-r");
    reveal_strlit("-pix_fmt");
    reveal_strlit("-preset");
    reveal_strlit("-maxrate");
    reveal_strlit("-bufsize");
}

proof fn lemma_options()
    ensures
        mark("-hide_banner"@) == 10111409812 && is_option("-hide_banner"@),
        mark("-nostdin"@) == 11111011608 && is_option("-nostdin"@),
        mark("-y"@) == 4512112102 && is_option("-y"@),
        mark("-progress"@) == 11111510309 && is_option("-progress"@),
        mark("-stats_period"@) == 11610009513 && is_option("-stats_period"@),
        mark("-nostats"@) == 11111511608 && is_option("-nostats"@),
        mark("-i"@) == 4510510502 && is_option("-i"@),
        mark("-vn"@) == 11811011803 && is_option("-vn"@),
        mark("-map"@) == 10911209704 && is_option("-map"@),
        mark("-map_metadata"@) == 9509710113 && is_option("-map_metadata"@),
        mark("-c:a"@) == 9909705804 && is_option("-c:a"@),
        mark("-b:a"@) == 9809705804 && is_option("-b:a"@),
        mark("-map_chapters"@) == 9511510413 && is_option("-map_chapters"@),
        mark("-color_primaries"@) == 11411511416 && is_option("-color_primaries"@),
        mark("-color_trc"@) == 10809911410 && is_option("-color_trc"@),
        mark("-colorspace"@) == 10810111411 && is_option("-colorspace"@),
        mark("-color_range"@) == 11110109512 && is_option("-color_range"@),
        mark("-threads"@) == 10411510108 && is_option("-threads"@),
        mark("-ar"@) == 9711409703 && is_option("-ar"@),
        mark("-ac"@) == 9709909703 && is_option("-ac"@),
        mark("-movflags"@) == 11811510209 && is_option("-movflags"@),
        mark("-fflags"@) == 10211510807 && is_option("-fflags"@),
        mark("-c:v"@) == 9911805804 && is_option("-c:v"@),
        mark("-ss"@) == 11511511503 && is_option("-ss"@),
        mark("-t"@) == 4511611602 && is_option("-t"@),
        mark("-rc"@) == 11409911403 && is_option("-rc"@),
        mark("-cq"@) == 9911309903 && is_option("-cq"@),
        mark("-b:v"@) == 9811805804 && is_option("-b:v"@),
        mark("-multipass"@) == 10811510510 && is_option("-multipass"@),
        mark("-rc-lookahead"@) == 10810011113 && is_option("-rc-lookahead"@),
        mark("-spatial-aq"@) == 9711310511 && is_option("-spatial-aq"@),
        mark("-temporal-aq"@) == 11211311412 && is_option("-temporal-aq"@),
        mark("-bf"@) == 9810209803 && is_option("-bf"@),
        mark("-refs"@) == 11411510105 && is_option("-refs"@),
        mark("-profile:v"@) == 11111810510 && is_option("-profile:v"@),
        mark("-tag:v"@) == 9711810306 && is_option("-tag:v"@),
        mark("-qp_i"@) == 11310511205 && is_option("-qp_i"@),
        mark("-qp_p"@) == 11311211205 && is_option("-qp_p"@),
        mark("-qp_b"@) == 11309811205 && is_option("-qp_b"@),
        mark("-global_quality"@) == 9712109515 && is_option("-global_quality"@),
        mark("-crf"@) == 9910211404 && is_option("-crf"@),
        mark("-x265-params"@) == 5311511212 && is_option("-x265-params"@),
        mark("-row-mt"@) == 11111611907 && is_option("-row-mt"@),
        mark("-g"@) == 4510310302 && is_option("-g"@),
        mark("-fps_mode"@) == 11510109509 && is_option("-fps_mode"@),
        mark("-r"@) == 4511411402 && is_option("-r"@),
        mark("-pix_fmt"@) == 10511609508 && is_option("-pix_fmt"@),
        mark("-preset"@) == 11411610107 && is_option("-preset"@),
        mark("-maxrate"@) == 9710111408 && is_option("-maxrate"@),
        mark("-bufsize"@) == 11710111508 && is_option("-bufsize"@),
{
    lemma_options_a();
    lemma_options_b();
    lemma_options_c();
    lemma_options_d();
    lemma_options_e();
}

proof fn lemma_values()
    ensures
        !is_option("vbr"@),
        !is_option("0"@),
        !is_option("p010le"@),
        !is_option("yuv420p"@),
        !is_option("nv12"@),
        !is_option("6"@),
        !is_option("yuv420p10le"@),
        !is_option("20"@),
        !is_option("5"@),
        !is_option("30"@),
        !is_option("qres"@),
        !is_option("32"@),
        !is_option("1"@),
        !is_option("3"@),
        !is_option("main"@),
        !is_option("high"@),
        !is_option("hvc1"@),
        !is_option("log-level=error"@),
        !is_option("cfr"@),
        !is_option("16"@),
        !is_option("2"@),
        !is_option("yuv422p10le"@),
        !is_option("dnxhr_hq"@),
        !is_option("yuv422p"@),
        !is_option("18"@),
        !is_option("high10"@),
        !is_option("pipe:1"@),
        !is_option("0.5"@),
        !is_option("+genpts"@),
        !is_option("0:a:0"@),
        !is_option("0:v:0"@),
        !is_option("0:a?"@),
        !is_option("-1"@),
        !is_option("48000"@),
        !is_option("+faststart"@),
        !is_option("copy"@),
{
    reveal_strlit("vbr");
    reveal_strlit("0");
    reveal_strlit("p010le");
    reveal_strlit("yuv420p");
    reveal_strlit("nv12");
    reveal_strlit("6");
    reveal_strlit("yuv420p10le");
    reveal_strlit("20");
    reveal_strlit("5");
    reveal_strlit("30");
    reveal_strlit("qres");
    reveal_strlit("32");
    reveal_strlit("1");
    reveal_strlit("3");
    reveal_strlit("main");
    reveal_strlit("high");
    reveal_strlit("hvc1");
    reveal_strlit("log-level=error");
    reveal_strlit("cfr");
    reveal_strlit("16");
    reveal_strlit("2");
    reveal_strlit("yuv422p10le");
    reveal_strlit("dnxhr_hq");
    reveal_strlit("yuv422p");
    reveal_strlit("18");
    reveal_strlit("high10");
    reveal_strlit("pipe:1");
    reveal_strlit("0.5");
    reveal_strlit("+genpts");
    reveal_strlit("0:a:0");
    reveal_strlit("0:v:0");
    reveal_strlit("0:a?");
    reveal_strlit("-1");
    reveal_strlit("48000");
    reveal_strlit("+faststart");
    reveal_strlit("copy");
}

proof fn lemma_number_is_no_option(i: int)
    ensures
        !is_option(int_dec(i)),
{
    let n: nat = if i < 0 {
        (-i) as nat
    } else {
        i as nat
    };
    dec_reads_back(n);
    assert(is_digit(dec(n)[0]));
    if i < 0 {
        assert(int_dec(i)[1] == dec(n)[0]);
    }
}

// ---------------- laws of the codecs ----------------

/// The encoder belongs to the codec that was chosen and to the hardware it is to
/// run on: each family has its own, and no hardware takes that of another.
pub proof fn the_encoder_belongs_to_its_codec(crf: int, ten_bit: bool)
    ensures
        recipe("h264"@, "nvidia"@, crf, ten_bit).video == "h264_nvenc"@,
        recipe("h264"@, "amd"@, crf, ten_bit).video == "h264_amf"@,
        recipe("h264"@, "intel"@, crf, ten_bit).video == "h264_qsv"@,
        recipe("h264"@, "cpu"@, crf, ten_bit).video == "libx264"@,
        recipe("h265"@, "nvidia"@, crf, ten_bit).video == "hevc_nvenc"@,
        recipe("h265"@, "amd"@, crf, ten_bit).video == "hevc_amf"@,
        recipe("h265"@, "intel"@, crf, ten_bit).video == "hevc_qsv"@,
        recipe("h265"@, "cpu"@, crf, ten_bit).video == "libx265"@,
        recipe("av1"@, "nvidia"@, crf, ten_bit).video == "av1_nvenc"@,
        recipe("av1"@, "amd"@, crf, ten_bit).video == "libsvtav1"@,
        recipe("av1"@, "intel"@, crf, ten_bit).video == "av1_qsv"@,
        recipe("av1"@, "cpu"@, crf, ten_bit).video == "libsvtav1"@,
        recipe("youtube_av1"@, "nvidia"@, crf, ten_bit).video == "av1_nvenc"@,
        recipe("youtube_av1"@, "amd"@, crf, ten_bit).video == "libsvtav1"@,
        recipe("youtube_av1"@, "intel"@, crf, ten_bit).video == "libsvtav1"@,
        recipe("youtube_av1"@, "cpu"@, crf, ten_bit).video == "libsvtav1"@,
{
    lemma_keys();
    lemma_hardware();
}

/// H.264 and H.265 never come out of the same encoder, whatever the hardware, and
/// neither comes out of one for another codec.
pub proof fn families_share_no_encoder(hw: Seq<char>, crf: int, ten_bit: bool)
    ensures
        ({
            let a = recipe("h264"@, hw, crf, ten_bit).video;
            let b = recipe("h265"@, hw, crf, ten_bit).video;
            let c = recipe("av1"@, hw, crf, ten_bit).video;
            let d = recipe("vp9"@, hw, crf, ten_bit).video;
            &&& a == "libx264"@ || a == "h264_nvenc"@ || a == "h264_amf"@ || a == "h264_qsv"@
            &&& b == "libx265"@ || b == "hevc_nvenc"@ || b == "hevc_amf"@ || b == "hevc_qsv"@
            &&& c == "libsvtav1"@ || c == "av1_nvenc"@ || c == "av1_qsv"@
            &&& d == "libvpx-vp9"@
            &&& a != b && a != c && a != d && b != c && b != d && c != d
        }),
{
    lemma_keys();
    lemma_encoders();
}

/// The other codecs have one encoder each, on every hardware: those for editing
/// and delivery are H.264 but for ProRes and DNxHR, and a copy is none.
pub proof fn the_other_codecs_have_one_encoder(hw: Seq<char>, crf: int, ten_bit: bool)
    ensures
        recipe("copy"@, hw, crf, ten_bit).video == "copy"@,
        recipe("vp9"@, hw, crf, ten_bit).video == "libvpx-vp9"@,
        recipe("h264_allintra"@, hw, crf, ten_bit).video == "libx264"@,
        recipe("h264_handbrake"@, hw, crf, ten_bit).video == "libx264"@,
        recipe("vegas_fix"@, hw, crf, ten_bit).video == "libx264"@,
        recipe("prores422"@, hw, crf, ten_bit).video == "prores_ks"@,
        recipe("prores422hq"@, hw, crf, ten_bit).video == "prores_ks"@,
        recipe("dnxhr_hq"@, hw, crf, ten_bit).video == "dnxhd"@,
        recipe("youtube"@, hw, crf, ten_bit).video == "libx264"@,
        recipe("social"@, hw, crf, ten_bit).video == "libx264"@,
{
    lemma_keys();
}

/// The sound of each codec: MP3 at 320 kbit/s, uncompressed for WAV and for
/// editing, untouched in a copy, else AAC - at a higher rate for YouTube.
pub proof fn the_sound_fits_the_codec(hw: Seq<char>, crf: int, ten_bit: bool)
    ensures
        recipe("audio_mp3"@, hw, crf, ten_bit).audio == "libmp3lame"@
            && recipe("audio_mp3"@, hw, crf, ten_bit).bitrate == Some("320k"@),
        recipe("audio_wav"@, hw, crf, ten_bit).audio == "pcm_s16le"@
            && recipe("audio_wav"@, hw, crf, ten_bit).bitrate == None::<Seq<char>>,
        recipe("vegas_fix"@, hw, crf, ten_bit).audio == "pcm_s16le"@
            && recipe("vegas_fix"@, hw, crf, ten_bit).bitrate == None::<Seq<char>>,
        recipe("prores422"@, hw, crf, ten_bit).audio == "pcm_s16le"@
            && recipe("prores422"@, hw, crf, ten_bit).bitrate == None::<Seq<char>>,
        recipe("prores422hq"@, hw, crf, ten_bit).audio == "pcm_s16le"@
            && recipe("prores422hq"@, hw, crf, ten_bit).bitrate == None::<Seq<char>>,
        recipe("dnxhr_hq"@, hw, crf, ten_bit).audio == "pcm_s16le"@
            && recipe("dnxhr_hq"@, hw, crf, ten_bit).bitrate == None::<Seq<char>>,
        recipe("h264"@, hw, crf, ten_bit).audio == "aac"@
            && recipe("h264"@, hw, crf, ten_bit).bitrate == Some("192k"@),
        recipe("h265"@, hw, crf, ten_bit).audio == "aac"@
            && recipe("h265"@, hw, crf, ten_bit).bitrate == Some("192k"@),
        recipe("av1"@, hw, crf, ten_bit).audio == "aac"@
            && recipe("av1"@, hw, crf, ten_bit).bitrate == Some("192k"@),
        recipe("vp9"@, hw, crf, ten_bit).audio == "aac"@
            && recipe("vp9"@, hw, crf, ten_bit).bitrate == Some("192k"@),
        recipe("h264_allintra"@, hw, crf, ten_bit).audio == "aac"@
            && recipe("h264_allintra"@, hw, crf, ten_bit).bitrate == Some("192k"@),
        recipe("h264_handbrake"@, hw, crf, ten_bit).audio == "aac"@
            && recipe("h264_handbrake"@, hw, crf, ten_bit).bitrate == Some("192k"@),
        recipe("social"@, hw, crf, ten_bit).audio == "aac"@
            && recipe("social"@, hw, crf, ten_bit).bitrate == Some("192k"@),
        recipe("youtube"@, hw, crf, ten_bit).audio == "aac"@
            && recipe("youtube"@, hw, crf, ten_bit).bitrate == Some("320k"@),
        recipe("youtube_av1"@, hw, crf, ten_bit).audio == "aac"@
            && recipe("youtube_av1"@, hw, crf, ten_bit).bitrate == Some("320k"@),
        recipe("copy"@, hw, crf, ten_bit).audio == "copy"@,
{
    lemma_keys();
}

/// The quality that was chosen reaches the encoder, in the option it knows: the
/// software encoders and those of Intel and AMD get it as it is, those of NVIDIA
/// three steps lower for the same look.
pub proof fn the_quality_reaches_the_encoder(crf: int, ten_bit: bool)
    ensures
        gives(recipe("h264"@, "cpu"@, crf, ten_bit).extra, "-crf"@, int_dec(crf)),
        gives(recipe("h265"@, "cpu"@, crf, ten_bit).extra, "-crf"@, int_dec(crf)),
        gives(recipe("av1"@, "cpu"@, crf, ten_bit).extra, "-crf"@, int_dec(crf)),
        gives(recipe("av1"@, "amd"@, crf, ten_bit).extra, "-crf"@, int_dec(crf)),
        gives(recipe("h264"@, "nvidia"@, crf, ten_bit).extra, "-cq"@, int_dec(crf + 3)),
        gives(recipe("h265"@, "nvidia"@, crf, ten_bit).extra, "-cq"@, int_dec(crf + 3)),
        gives(recipe("av1"@, "nvidia"@, crf, ten_bit).extra, "-cq"@, int_dec(crf + 3)),
        gives(recipe("h264"@, "intel"@, crf, ten_bit).extra, "-global_quality"@, int_dec(crf)),
        gives(recipe("h265"@, "intel"@, crf, ten_bit).extra, "-global_quality"@, int_dec(crf)),
        gives(recipe("av1"@, "intel"@, crf, ten_bit).extra, "-global_quality"@, int_dec(crf)),
        gives(recipe("h264"@, "amd"@, crf, ten_bit).extra, "-qp_i"@, int_dec(crf)),
        gives(recipe("h265"@, "amd"@, crf, ten_bit).extra, "-qp_i"@, int_dec(crf)),
        gives(recipe("h264"@, "amd"@, crf, ten_bit).extra, "-qp_p"@, int_dec(crf)),
        gives(recipe("h265"@, "amd"@, crf, ten_bit).extra, "-qp_p"@, int_dec(crf)),
        gives(recipe("h264"@, "amd"@, crf, ten_bit).extra, "-qp_b"@, int_dec(crf)),
        gives(recipe("h265"@, "amd"@, crf, ten_bit).extra, "-qp_b"@, int_dec(crf)),
        gives(recipe("h264_allintra"@, "nvidia"@, crf, ten_bit).extra, "-crf"@, int_dec(crf)),
        gives(recipe("h264_handbrake"@, "nvidia"@, crf, ten_bit).extra, "-crf"@, int_dec(crf)),
        gives(recipe("h264_allintra"@, "amd"@, crf, ten_bit).extra, "-crf"@, int_dec(crf)),
        gives(recipe("h264_handbrake"@, "amd"@, crf, ten_bit).extra, "-crf"@, int_dec(crf)),
        gives(recipe("h264_allintra"@, "intel"@, crf, ten_bit).extra, "-crf"@, int_dec(crf)),
        gives(recipe("h264_handbrake"@, "intel"@, crf, ten_bit).extra, "-crf"@, int_dec(crf)),
        gives(recipe("h264_allintra"@, "cpu"@, crf, ten_bit).extra, "-crf"@, int_dec(crf)),
        gives(recipe("h264_handbrake"@, "cpu"@, crf, ten_bit).extra, "-crf"@, int_dec(crf)),
{
    lemma_keys();
    lemma_hardware();
    lemma_options();
    lemma_values();
    lemma_number_is_no_option(crf);
    lemma_number_is_no_option(crf + 3);
    assert(recipe("h264"@, "cpu"@, crf, ten_bit).extra[0] == "-crf"@);
    assert(recipe("h265"@, "cpu"@, crf, ten_bit).extra[0] == "-crf"@);
    assert(recipe("av1"@, "cpu"@, crf, ten_bit).extra[2] == "-crf"@);
    assert(recipe("av1"@, "amd"@, crf, ten_bit).extra[2] == "-crf"@);
    assert(recipe("h264"@, "nvidia"@, crf, ten_bit).extra[2] == "-cq"@);
    assert(recipe("h265"@, "nvidia"@, crf, ten_bit).extra[2] == "-cq"@);
    assert(recipe("av1"@, "nvidia"@, crf, ten_bit).extra[2] == "-cq"@);
    assert(recipe("h264"@, "intel"@, crf, ten_bit).extra[0] == "-global_quality"@);
    assert(recipe("h265"@, "intel"@, crf, ten_bit).extra[0] == "-global_quality"@);
    assert(recipe("av1"@, "intel"@, crf, ten_bit).extra[0] == "-global_quality"@);
    assert(recipe("h264"@, "amd"@, crf, ten_bit).extra[0] == "-qp_i"@);
    assert(recipe("h264"@, "amd"@, crf, ten_bit).extra[2] == "-qp_p"@);
    assert(recipe("h264"@, "amd"@, crf, ten_bit).extra[4] == "-qp_b"@);
    assert(recipe("h265"@, "amd"@, crf, ten_bit).extra[0] == "-qp_i"@);
    assert(recipe("h265"@, "amd"@, crf, ten_bit).extra[2] == "-qp_p"@);
    assert(recipe("h265"@, "amd"@, crf, ten_bit).extra[4] == "-qp_b"@);
    assert(recipe("h264_allintra"@, "nvidia"@, crf, ten_bit).extra[4] == "-crf"@);
    assert(recipe("h264_handbrake"@, "nvidia"@, crf, ten_bit).extra[0] == "-crf"@);
    assert(recipe("h264_allintra"@, "amd"@, crf, ten_bit).extra[4] == "-crf"@);
    assert(recipe("h264_handbrake"@, "amd"@, crf, ten_bit).extra[0] == "-crf"@);
    assert(recipe("h264_allintra"@, "intel"@, crf, ten_bit).extra[4] == "-crf"@);
    assert(recipe("h264_handbrake"@, "intel"@, crf, ten_bit).extra[0] == "-crf"@);
    assert(recipe("h264_allintra"@, "cpu"@, crf, ten_bit).extra[4] == "-crf"@);
    assert(recipe("h264_handbrake"@, "cpu"@, crf, ten_bit).extra[0] == "-crf"@);
}

/// The presets for editing and delivery carry the settings they are made for,
/// whatever quality was chosen.
pub proof fn presets_carry_their_settings(hw: Seq<char>, crf: int, ten_bit: bool)
    ensures
        gives(recipe("h264_allintra"@, hw, crf, ten_bit).extra, "-g"@, "1"@),
        gives(recipe("h264_allintra"@, hw, crf, ten_bit).extra, "-bf"@, "0"@),
        gives(recipe("h264_allintra"@, hw, crf, ten_bit).extra, "-profile:v"@, "high"@),
        gives(recipe("h264_allintra"@, hw, crf, ten_bit).extra, "-pix_fmt"@, "yuv420p"@),
        gives(recipe("h264_handbrake"@, hw, crf, ten_bit).extra, "-profile:v"@, "high"@),
        gives(recipe("h264_handbrake"@, hw, crf, ten_bit).extra, "-pix_fmt"@, "yuv420p"@),
        gives(recipe("vegas_fix"@, hw, crf, ten_bit).extra, "-fps_mode"@, "cfr"@),
        gives(recipe("vegas_fix"@, hw, crf, ten_bit).extra, "-r"@, "30"@),
        gives(recipe("vegas_fix"@, hw, crf, ten_bit).extra, "-crf"@, "16"@),
        gives(recipe("vegas_fix"@, hw, crf, ten_bit).extra, "-g"@, "1"@),
        gives(recipe("vegas_fix"@, hw, crf, ten_bit).extra, "-bf"@, "0"@),
        gives(recipe("vegas_fix"@, hw, crf, ten_bit).extra, "-pix_fmt"@, "yuv420p"@),
        gives(recipe("prores422"@, hw, crf, ten_bit).extra, "-profile:v"@, "2"@),
        gives(recipe("prores422"@, hw, crf, ten_bit).extra, "-pix_fmt"@, "yuv422p10le"@),
        gives(recipe("prores422hq"@, hw, crf, ten_bit).extra, "-profile:v"@, "3"@),
        gives(recipe("prores422hq"@, hw, crf, ten_bit).extra, "-pix_fmt"@, "yuv422p10le"@),
        gives(recipe("dnxhr_hq"@, hw, crf, ten_bit).extra, "-profile:v"@, "dnxhr_hq"@),
        gives(recipe("dnxhr_hq"@, hw, crf, ten_bit).extra, "-pix_fmt"@, "yuv422p"@),
        gives(recipe("social"@, hw, crf, ten_bit).extra, "-crf"@, "20"@),
        gives(recipe("social"@, hw, crf, ten_bit).extra, "-profile:v"@, "main"@),
        gives(recipe("social"@, hw, crf, ten_bit).extra, "-pix_fmt"@, "yuv420p"@),
        gives(recipe("vp9"@, hw, crf, ten_bit).extra, "-crf"@, "30"@),
        gives(recipe("vp9"@, hw, crf, ten_bit).extra, "-b:v"@, "0"@),
        gives(recipe("vp9"@, hw, crf, ten_bit).extra, "-row-mt"@, "1"@),
        gives(recipe("youtube"@, hw, crf, ten_bit).extra, "-crf"@, "18"@),
        gives(
            recipe("youtube"@, hw, crf, ten_bit).extra,
            "-profile:v"@,
            if ten_bit {
                "high10"@
            } else {
                "high"@
            },
        ),
        gives(
            recipe("youtube"@, hw, crf, ten_bit).extra,
            "-pix_fmt"@,
            if ten_bit {
                "yuv420p10le"@
            } else {
                "yuv420p"@
            },
        ),
        recipe("vegas_fix"@, hw, crf, ten_bit).preset == Some("fast"@),
        recipe("youtube"@, hw, crf, ten_bit).preset == Some("slow"@),
        recipe("h264_allintra"@, hw, crf, ten_bit).preset == Some("medium"@),
        recipe("h264_handbrake"@, hw, crf, ten_bit).preset == Some("medium"@),
        recipe("social"@, hw, crf, ten_bit).preset == Some("medium"@),
        recipe("vp9"@, hw, crf, ten_bit).preset == Some("medium"@),
{
    lemma_keys();
    lemma_options();
    lemma_values();
    lemma_number_is_no_option(crf);
    assert(recipe("h264_allintra"@, hw, crf, ten_bit).extra[0] == "-g"@);
    assert(recipe("h264_allintra"@, hw, crf, ten_bit).extra[2] == "-bf"@);
    assert(recipe("h264_allintra"@, hw, crf, ten_bit).extra[6] == "-profile:v"@);
    assert(recipe("h264_allintra"@, hw, crf, ten_bit).extra[8] == "-pix_fmt"@);
    assert(recipe("h264_handbrake"@, hw, crf, ten_bit).extra[2] == "-profile:v"@);
    assert(recipe("h264_handbrake"@, hw, crf, ten_bit).extra[4] == "-pix_fmt"@);
    assert(recipe("vegas_fix"@, hw, crf, ten_bit).extra[0] == "-fps_mode"@);
    assert(recipe("vegas_fix"@, hw, crf, ten_bit).extra[2] == "-r"@);
    assert(recipe("vegas_fix"@, hw, crf, ten_bit).extra[4] == "-crf"@);
    assert(recipe("vegas_fix"@, hw, crf, ten_bit).extra[6] == "-g"@);
    assert(recipe("vegas_fix"@, hw, crf, ten_bit).extra[8] == "-bf"@);
    assert(recipe("vegas_fix"@, hw, crf, ten_bit).extra[10] == "-pix_fmt"@);
    assert(recipe("prores422"@, hw, crf, ten_bit).extra[0] == "-profile:v"@);
    assert(recipe("prores422"@, hw, crf, ten_bit).extra[2] == "-pix_fmt"@);
    assert(recipe("prores422hq"@, hw, crf, ten_bit).extra[0] == "-profile:v"@);
    assert(recipe("prores422hq"@, hw, crf, ten_bit).extra[2] == "-pix_fmt"@);
    assert(recipe("dnxhr_hq"@, hw, crf, ten_bit).extra[0] == "-profile:v"@);
    assert(recipe("dnxhr_hq"@, hw, crf, ten_bit).extra[2] == "-pix_fmt"@);
    assert(recipe("social"@, hw, crf, ten_bit).extra[0] == "-crf"@);
    assert(recipe("social"@, hw, crf, ten_bit).extra[2] == "-profile:v"@);
    assert(recipe("social"@, hw, crf, ten_bit).extra[4] == "-pix_fmt"@);
    assert(recipe("vp9"@, hw, crf, ten_bit).extra[0] == "-crf"@);
    assert(recipe("vp9"@, hw, crf, ten_bit).extra[2] == "-b:v"@);
    assert(recipe("vp9"@, hw, crf, ten_bit).extra[4] == "-row-mt"@);
    assert(recipe("youtube"@, hw, crf, ten_bit).extra[0] == "-crf"@);
    assert(recipe("youtube"@, hw, crf, ten_bit).extra[2] == "-profile:v"@);
    assert(recipe("youtube"@, hw, crf, ten_bit).extra[4] == "-pix_fmt"@);
}

/// A source of ten bits per sample keeps them where the encoder can: H.265 and
/// AV1 in software, AV1 by NVENC; others get eight.
pub proof fn ten_bits_are_kept_where_they_can_be(crf: int, ten_bit: bool)
    ensures
        gives(recipe("h264"@, "cpu"@, crf, ten_bit).extra, "-pix_fmt"@, "yuv420p"@),
        gives(recipe("h264"@, "nvidia"@, crf, ten_bit).extra, "-pix_fmt"@, "yuv420p"@),
        gives(recipe("h264"@, "amd"@, crf, ten_bit).extra, "-pix_fmt"@, "yuv420p"@),
        gives(recipe("h264"@, "intel"@, crf, ten_bit).extra, "-pix_fmt"@, "nv12"@),
        gives(recipe("h265"@, "nvidia"@, crf, ten_bit).extra, "-pix_fmt"@, "p010le"@),
        gives(recipe("h265"@, "amd"@, crf, ten_bit).extra, "-pix_fmt"@, "yuv420p"@),
        gives(recipe("h265"@, "intel"@, crf, ten_bit).extra, "-pix_fmt"@, "nv12"@),
        gives(recipe("av1"@, "intel"@, crf, ten_bit).extra, "-pix_fmt"@, "nv12"@),
        gives(
            recipe("h265"@, "cpu"@, crf, ten_bit).extra,
            "-pix_fmt"@,
            if ten_bit {
                "yuv420p10le"@
            } else {
                "yuv420p"@
            },
        ),
        gives(
            recipe("av1"@, "cpu"@, crf, ten_bit).extra,
            "-pix_fmt"@,
            if ten_bit {
                "yuv420p10le"@
            } else {
                "yuv420p"@
            },
        ),
        gives(
            recipe("av1"@, "amd"@, crf, ten_bit).extra,
            "-pix_fmt"@,
            if ten_bit {
                "yuv420p10le"@
            } else {
                "yuv420p"@
            },
        ),
        gives(
            recipe("av1"@, "nvidia"@, crf, ten_bit).extra,
            "-pix_fmt"@,
            if ten_bit {
                "p010le"@
            } else {
                "yuv420p"@
            },
        ),
        gives(recipe("h265"@, "cpu"@, crf, ten_bit).extra, "-tag:v"@, "hvc1"@),
        gives(recipe("h265"@, "nvidia"@, crf, ten_bit).extra, "-tag:v"@, "hvc1"@),
{
    lemma_keys();
    lemma_hardware();
    lemma_options();
    lemma_values();
    lemma_number_is_no_option(crf);
    lemma_number_is_no_option(crf + 3);
    assert(recipe("h264"@, "cpu"@, crf, ten_bit).extra[2] == "-pix_fmt"@);
    assert(recipe("h264"@, "nvidia"@, crf, ten_bit).extra[20] == "-pix_fmt"@);
    assert(recipe("h264"@, "amd"@, crf, ten_bit).extra[6] == "-pix_fmt"@);
    assert(recipe("h264"@, "intel"@, crf, ten_bit).extra[2] == "-pix_fmt"@);
    assert(recipe("h265"@, "nvidia"@, crf, ten_bit).extra[22] == "-pix_fmt"@);
    assert(recipe("h265"@, "amd"@, crf, ten_bit).extra[6] == "-pix_fmt"@);
    assert(recipe("h265"@, "intel"@, crf, ten_bit).extra[2] == "-pix_fmt"@);
    assert(recipe("av1"@, "intel"@, crf, ten_bit).extra[2] == "-pix_fmt"@);
    assert(recipe("h265"@, "cpu"@, crf, ten_bit).extra[2] == "-pix_fmt"@);
    assert(recipe("av1"@, "cpu"@, crf, ten_bit).extra[4] == "-pix_fmt"@);
    assert(recipe("av1"@, "amd"@, crf, ten_bit).extra[4] == "-pix_fmt"@);
    assert(recipe("av1"@, "nvidia"@, crf, ten_bit).extra[6] == "-pix_fmt"@);
    assert(recipe("h265"@, "cpu"@, crf, ten_bit).extra[4] == "-tag:v"@);
    assert(recipe("h265"@, "nvidia"@, crf, ten_bit).extra[20] == "-tag:v"@);
}

/// Where the hardware is found by what FFmpeg lists, H.264 runs on an encoder
/// that is in the list, or in software.
pub proof fn the_found_encoder_is_listed(lower: Seq<char>, crf: int, ten_bit: bool)
    ensures
        ({
            let v = recipe("h264"@, encoder_in(lower), crf, ten_bit).video;
            v == "libx264"@ || within(lower, v)
        }),
{
    lemma_keys();
    lemma_hardware();
}

/// The hardware is the one that was set, and the one that was found only where
/// the choice was left open.
pub proof fn the_hardware_is_the_one_that_was_set(setting: Seq<char>, found: Seq<char>)
    ensures
        setting != "auto"@ ==> resolved_hw(setting, found) == setting,
        resolved_hw("auto"@, found) == found,
{
}

// ---------------- the words of a command ----------------

/// What a conversion command is made from; `lower` is the output in lowercase.
pub struct Conversion {
    pub ffmpeg: Seq<char>,
    pub input: Seq<char>,
    pub output: Seq<char>,
    pub lower: Seq<char>,
    pub p: Profile,
    pub meta: Dict,
    pub preserve: bool,
}

/// The command that is made from it.
pub open spec fn conversion_of(c: Conversion) -> Seq<Seq<char>> {
    ffmpeg_command(c.ffmpeg, c.input, c.output, c.lower, c.p, c.meta, c.preserve)
}

/// None of the texts that a conversion is given is this word, nor do the options
/// of the encoder hold it.
pub open spec fn is_no_word(c: Conversion, word: Seq<char>) -> bool {
    &&& word != c.ffmpeg && word != c.input && word != c.output
    &&& word != c.p.video_codec@ && word != c.p.audio_codec@
    &&& opt_text(c.p.audio_bitrate) != Some(word) && opt_text(c.p.preset) != Some(word)
    &&& lacks(texts(c.p.extra@), word)
    &&& forall|key: Seq<char>| #[trigger] c.meta.at(key) != Some(word)
}

spec fn video_parts(c: Conversion) -> Seq<Seq<Seq<char>>> {
    seq![
        common_args(c.ffmpeg),
        seq!["-fflags"@, "+genpts"@],
        seek_spec(c.p),
        seq!["-i"@, c.input],
        map_args(c.p),
        pix_fmt_args(c.p),
        seq!["-c:v"@, c.p.video_codec@],
        preset_args(c.p),
        texts(c.p.extra@),
        kept_color_args(c.p, c.meta, c.preserve),
        thread_args(c.p),
        sound_args(c.p),
        faststart_args(c.p, c.lower),
        seq![c.output],
    ]
}

proof fn lemma_video_parts(c: Conversion)
    requires
        c.p.audio_only == false,
    ensures
        conversion_of(c) == strung(video_parts(c)),
        video_parts(c).len() == 14,
{
    let p = video_parts(c);
    reveal_with_fuel(strung, 15);
    assert(strung(p.take(0)) =~= seq![]);
    assert(p.take(1).drop_last() =~= p.take(0));
    assert(p.take(1).last() == p[0]);
    assert(p.take(2).drop_last() =~= p.take(1));
    assert(p.take(2).last() == p[1]);
    assert(p.take(3).drop_last() =~= p.take(2));
    assert(p.take(3).last() == p[2]);
    assert(p.take(4).drop_last() =~= p.take(3));
    assert(p.take(4).last() == p[3]);
    assert(p.take(5).drop_last() =~= p.take(4));
    assert(p.take(5).last() == p[4]);
    assert(p.take(6).drop_last() =~= p.take(5));
    assert(p.take(6).last() == p[5]);
    assert(p.take(7).drop_last() =~= p.take(6));
    assert(p.take(7).last() == p[6]);
    assert(p.take(8).drop_last() =~= p.take(7));
    assert(p.take(8).last() == p[7]);
    assert(p.take(9).drop_last() =~= p.take(8));
    assert(p.take(9).last() == p[8]);
    assert(p.take(10).drop_last() =~= p.take(9));
    assert(p.take(10).last() == p[9]);
    assert(p.take(11).drop_last() =~= p.take(10));
    assert(p.take(11).last() == p[10]);
    assert(p.take(12).drop_last() =~= p.take(11));
    assert(p.take(12).last() == p[11]);
    assert(p.take(13).drop_last() =~= p.take(12));
    assert(p.take(13).last() == p[12]);
    assert(p.take(14).drop_last() =~= p.take(13));
    assert(p.take(14).last() == p[13]);
    assert(p.take(14) =~= p);
    assert(conversion_of(c) =~= strung(p.take(14)));
}

spec fn audio_parts(c: Conversion) -> Seq<Seq<Seq<char>>> {
    seq![
        common_args(c.ffmpeg),
        seek_spec(c.p),
        seq![
            "-i"@,
            c.input,
            "-vn"@,
            "-map"@,
            "0:a:0"@,
            "-map_metadata"@,
            "0"@,
            "-c:a"@,
            c.p.audio_codec@,
        ],
        audio_bitrate_args(c.p),
        seq![c.output],
    ]
}

proof fn lemma_audio_parts(c: Conversion)
    requires
        c.p.audio_only == true,
    ensures
        conversion_of(c) == strung(audio_parts(c)),
        audio_parts(c).len() == 5,
{
    let p = audio_parts(c);
    reveal_with_fuel(strung, 6);
    assert(strung(p.take(0)) =~= seq![]);
    assert(p.take(1).drop_last() =~= p.take(0));
    assert(p.take(1).last() == p[0]);
    assert(p.take(2).drop_last() =~= p.take(1));
    assert(p.take(2).last() == p[1]);
    assert(p.take(3).drop_last() =~= p.take(2));
    assert(p.take(3).last() == p[2]);
    assert(p.take(4).drop_last() =~= p.take(3));
    assert(p.take(4).last() == p[3]);
    assert(p.take(5).drop_last() =~= p.take(4));
    assert(p.take(5).last() == p[4]);
    assert(p.take(5) =~= p);
    assert(conversion_of(c) =~= strung(p.take(5)));
}

proof fn lemma_seconds_are_no_option(ns: nat)
    ensures
        !is_option(seconds3(ns)),
{
    let ms = millis_over(ns, 1);
    dec_reads_back(ms / 1000);
    assert(is_digit(dec(ms / 1000)[0]));
    assert(seconds3(ns)[0] == dec(ms / 1000)[0]);
}

proof fn lemma_color_words(meta: Dict)
    ensures
        ({
            let a = color_args(meta, 4);
            &&& COLOR_FLAGS@.len() == 4
            &&& color_args(meta, 0).len() == 0
            &&& a == color_arg(meta, 0) + color_arg(meta, 1) + color_arg(meta, 2) + color_arg(
                meta,
                3,
            )
            &&& color_arg(meta, 0) == value_of("-color_primaries"@, meta.at("color_primaries"@))
            &&& color_arg(meta, 1) == value_of("-color_trc"@, meta.at("color_trc"@))
            &&& color_arg(meta, 2) == value_of("-colorspace"@, meta.at("color_space"@))
            &&& color_arg(meta, 3) == value_of("-color_range"@, meta.at("color_range"@))
        }),
{
    reveal_with_fuel(color_args, 5);
    let a = color_args(meta, 4);
    assert(color_args(meta, 0) =~= seq![]);
    assert(color_args(meta, 1) =~= color_arg(meta, 0));
    assert(COLOR_FLAGS@[0].0@ == "color_primaries"@ && COLOR_FLAGS@[0].1@ == "-color_primaries"@);
    assert(COLOR_FLAGS@[1].0@ == "color_trc"@ && COLOR_FLAGS@[1].1@ == "-color_trc"@);
    assert(COLOR_FLAGS@[2].0@ == "color_space"@ && COLOR_FLAGS@[2].1@ == "-colorspace"@);
    assert(COLOR_FLAGS@[3].0@ == "color_range"@ && COLOR_FLAGS@[3].1@ == "-color_range"@);
}

/// An option and its value, where there is one.
spec fn value_of(option: Seq<char>, value: Option<Seq<char>>) -> Seq<Seq<char>> {
    match value {
        Some(v) => seq![option, v],
        None => seq![],
    }
}

proof fn lemma_common_lacks(c: Conversion, word: Seq<char>)
    requires
        is_option(word),
        is_no_word(c, word),
        word != "-hide_banner"@,
        word != "-nostdin"@,
        word != "-y"@,
        word != "-progress"@,
        word != "-stats_period"@,
        word != "-nostats"@,
    ensures
        lacks(common_args(c.ffmpeg), word),
{
    lemma_values();
}

proof fn lemma_stamps_lacks(c: Conversion, word: Seq<char>)
    requires
        is_option(word),
        is_no_word(c, word),
        word != "-fflags"@,
    ensures
        lacks(seq!["-fflags"@, "+genpts"@], word),
{
    lemma_values();
}

proof fn lemma_seek_lacks(c: Conversion, word: Seq<char>)
    requires
        is_option(word),
        is_no_word(c, word),
        word != "-ss"@,
        word != "-t"@,
    ensures
        lacks(seek_spec(c.p), word),
{
    lemma_values();
    if let Some(s) = c.p.trim_start {
        lemma_seconds_are_no_option(s as nat);
    }
    if let Some(d) = c.p.trim_duration {
        lemma_seconds_are_no_option(d as nat);
    }
}

proof fn lemma_input_lacks(c: Conversion, word: Seq<char>)
    requires
        is_option(word),
        is_no_word(c, word),
        word != "-i"@,
    ensures
        lacks(seq!["-i"@, c.input], word),
{
    lemma_values();
}

proof fn lemma_map_lacks(c: Conversion, word: Seq<char>)
    requires
        is_option(word),
        is_no_word(c, word),
        word != "-map"@,
        word != "-map_metadata"@,
        word != "-map_chapters"@,
    ensures
        lacks(map_args(c.p), word),
{
    lemma_values();
}

proof fn lemma_pixels_lacks(c: Conversion, word: Seq<char>)
    requires
        is_option(word),
        is_no_word(c, word),
        word != "-pix_fmt"@,
    ensures
        lacks(pix_fmt_args(c.p), word),
{
    lemma_values();
}

proof fn lemma_encoder_lacks(c: Conversion, word: Seq<char>)
    requires
        is_option(word),
        is_no_word(c, word),
        word != "-c:v"@,
    ensures
        lacks(seq!["-c:v"@, c.p.video_codec@], word),
{
    lemma_values();
}

proof fn lemma_preset_lacks(c: Conversion, word: Seq<char>)
    requires
        is_option(word),
        is_no_word(c, word),
        word != "-preset"@,
    ensures
        lacks(preset_args(c.p), word),
{
    lemma_values();
}

proof fn lemma_color_lacks(c: Conversion, word: Seq<char>)
    requires
        is_option(word),
        is_no_word(c, word),
        word != "-color_primaries"@,
        word != "-color_trc"@,
        word != "-colorspace"@,
        word != "-color_range"@,
    ensures
        lacks(kept_color_args(c.p, c.meta, c.preserve), word),
{
    lemma_values();
    lemma_color_words(c.meta);
}

proof fn lemma_threads_lacks(c: Conversion, word: Seq<char>)
    requires
        is_option(word),
        is_no_word(c, word),
        word != "-threads"@,
    ensures
        lacks(thread_args(c.p), word),
{
    lemma_values();
}

proof fn lemma_sound_lacks(c: Conversion, word: Seq<char>)
    requires
        is_option(word),
        is_no_word(c, word),
        word != "-c:a"@,
        word != "-b:a"@,
        word != "-ar"@,
        word != "-ac"@,
    ensures
        lacks(sound_args(c.p), word),
{
    lemma_values();
    let b = audio_bitrate_args(c.p);
    let r = resample_args(c.p);
    assert(lacks(b, word));
    assert(lacks(r, word));
}

proof fn lemma_index_lacks(c: Conversion, word: Seq<char>)
    requires
        is_option(word),
        is_no_word(c, word),
        word != "-movflags"@,
    ensures
        lacks(faststart_args(c.p, c.lower), word),
{
    lemma_values();
}

proof fn lemma_output_lacks(c: Conversion, word: Seq<char>)
    requires
        is_option(word),
        is_no_word(c, word),
    ensures
        lacks(seq![c.output], word),
{
    lemma_values();
}

proof fn lemma_streams_lacks(c: Conversion, word: Seq<char>)
    requires
        is_option(word),
        is_no_word(c, word),
        word != "-i"@,
        word != "-vn"@,
        word != "-map"@,
        word != "-map_metadata"@,
        word != "-c:a"@,
    ensures
        lacks(seq![
            "-i"@,
            c.input,
            "-vn"@,
            "-map"@,
            "0:a:0"@,
            "-map_metadata"@,
            "0"@,
            "-c:a"@,
            c.p.audio_codec@,
        ], word),
{
    lemma_values();
}

proof fn lemma_rate_lacks(c: Conversion, word: Seq<char>)
    requires
        is_option(word),
        is_no_word(c, word),
        word != "-b:a"@,
    ensures
        lacks(audio_bitrate_args(c.p), word),
{
    lemma_values();
}

proof fn lemma_only_video(c: Conversion, k: int, word: Seq<char>)
    requires
        is_option(word),
        is_no_word(c, word),
        k != 0 ==> word != "-hide_banner"@ && word != "-nostdin"@ && word != "-y"@
            && word != "-progress"@ && word != "-stats_period"@ && word != "-nostats"@,
        k != 1 ==> word != "-fflags"@,
        k != 2 ==> word != "-ss"@ && word != "-t"@,
        k != 3 ==> word != "-i"@,
        k != 4 ==> word != "-map"@ && word != "-map_metadata"@ && word != "-map_chapters"@,
        k != 5 ==> word != "-pix_fmt"@,
        k != 6 ==> word != "-c:v"@,
        k != 7 ==> word != "-preset"@,
        k != 9 ==> word != "-color_primaries"@ && word != "-color_trc"@
            && word != "-colorspace"@ && word != "-color_range"@,
        k != 10 ==> word != "-threads"@,
        k != 11 ==> word != "-c:a"@ && word != "-b:a"@ && word != "-ar"@ && word != "-ac"@,
        k != 12 ==> word != "-movflags"@,
    ensures
        forall|j: int| 0 <= j < 14 && j != k ==> lacks(#[trigger] video_parts(c)[j], word),
{
    let p = video_parts(c);
    if k != 0 {
        lemma_common_lacks(c, word);
    }
    if k != 1 {
        lemma_stamps_lacks(c, word);
    }
    if k != 2 {
        lemma_seek_lacks(c, word);
    }
    if k != 3 {
        lemma_input_lacks(c, word);
    }
    if k != 4 {
        lemma_map_lacks(c, word);
    }
    if k != 5 {
        lemma_pixels_lacks(c, word);
    }
    if k != 6 {
        lemma_encoder_lacks(c, word);
    }
    if k != 7 {
        lemma_preset_lacks(c, word);
    }
    if k != 9 {
        lemma_color_lacks(c, word);
    }
    if k != 10 {
        lemma_threads_lacks(c, word);
    }
    if k != 11 {
        lemma_sound_lacks(c, word);
    }
    if k != 12 {
        lemma_index_lacks(c, word);
    }
    if k != 13 {
        lemma_output_lacks(c, word);
    }
    assert forall|j: int| 0 <= j < 14 && j != k implies lacks(#[trigger] p[j], word) by {
        assert(j == 0 || j == 1 || j == 2 || j == 3 || j == 4 || j == 5 || j == 6 || j == 7
            || j == 8 || j == 9 || j == 10 || j == 11 || j == 12 || j == 13);
    }
}

proof fn lemma_video_value(c: Conversion, k: int, option: Seq<char>, value: Option<Seq<char>>)
    requires
        c.p.audio_only == false,
        0 <= k < 14,
        forall|j: int| 0 <= j < 14 && j != k ==> lacks(#[trigger] video_parts(c)[j], option),
        has_value(video_parts(c)[k], option, value),
    ensures
        has_value(conversion_of(c), option, value),
{
    let p = video_parts(c);
    lemma_video_parts(c);
    match value {
        Some(v) => lemma_strung_gives(p, k, option, v),
        None => {
            assert forall|j: int| 0 <= j < p.len() implies lacks(#[trigger] p[j], option) by {}
            lemma_strung_lacks(p, option);
        },
    }
}

proof fn lemma_only_audio(c: Conversion, k: int, word: Seq<char>)
    requires
        is_option(word),
        is_no_word(c, word),
        k != 0 ==> word != "-hide_banner"@ && word != "-nostdin"@ && word != "-y"@
            && word != "-progress"@ && word != "-stats_period"@ && word != "-nostats"@,
        k != 1 ==> word != "-ss"@ && word != "-t"@,
        k != 2 ==> word != "-i"@ && word != "-vn"@ && word != "-map"@
            && word != "-map_metadata"@ && word != "-c:a"@,
        k != 3 ==> word != "-b:a"@,
    ensures
        forall|j: int| 0 <= j < 5 && j != k ==> lacks(#[trigger] audio_parts(c)[j], word),
{
    let p = audio_parts(c);
    if k != 0 {
        lemma_common_lacks(c, word);
    }
    if k != 1 {
        lemma_seek_lacks(c, word);
    }
    if k != 2 {
        lemma_streams_lacks(c, word);
    }
    if k != 3 {
        lemma_rate_lacks(c, word);
    }
    if k != 4 {
        lemma_output_lacks(c, word);
    }
    assert forall|j: int| 0 <= j < 5 && j != k implies lacks(#[trigger] p[j], word) by {
        assert(j == 0 || j == 1 || j == 2 || j == 3 || j == 4);
    }
}

proof fn lemma_audio_value(c: Conversion, k: int, option: Seq<char>, value: Option<Seq<char>>)
    requires
        c.p.audio_only == true,
        0 <= k < 5,
        forall|j: int| 0 <= j < 5 && j != k ==> lacks(#[trigger] audio_parts(c)[j], option),
        has_value(audio_parts(c)[k], option, value),
    ensures
        has_value(conversion_of(c), option, value),
{
    let p = audio_parts(c);
    lemma_audio_parts(c);
    match value {
        Some(v) => lemma_strung_gives(p, k, option, v),
        None => {
            assert forall|j: int| 0 <= j < p.len() implies lacks(#[trigger] p[j], option) by {}
            lemma_strung_lacks(p, option);
        },
    }
}

// ---------------- laws of the command ----------------

/// The start and the length of the cut, as far as each is there.
spec fn cut_of(c: Conversion) -> (Option<Seq<char>>, Option<Seq<char>>) {
    (
        match c.p.trim_start {
            Some(s) => Some(seconds3(s as nat)),
            None => None,
        },
        match c.p.trim_duration {
            Some(d) => Some(seconds3(d as nat)),
            None => None,
        },
    )
}

proof fn lemma_cut_words(c: Conversion)
    ensures
        has_value(seek_spec(c.p), "-ss"@, cut_of(c).0),
        has_value(seek_spec(c.p), "-t"@, cut_of(c).1),
{
    let s = seek_spec(c.p);
    lemma_options();
    if let Some(n) = c.p.trim_start {
        lemma_seconds_are_no_option(n as nat);
        assert(s[0] == "-ss"@ && s[1] == seconds3(n as nat));
    }
    if let Some(d) = c.p.trim_duration {
        lemma_seconds_are_no_option(d as nat);
        let k = s.len() - 2;
        assert(s[k] == "-t"@ && s[k + 1] == seconds3(d as nat));
    }
}

/// A conversion reads the input it was given, from where and for as long as it
/// was told.
pub proof fn a_conversion_reads_what_it_is_told(c: Conversion)
    requires
        is_no_word(c, "-i"@),
        is_no_word(c, "-ss"@),
        is_no_word(c, "-t"@),
    ensures
        gives(conversion_of(c), "-i"@, c.input),
        has_value(
            conversion_of(c),
            "-ss"@,
            match c.p.trim_start {
                Some(s) => Some(seconds3(s as nat)),
                None => None,
            },
        ),
        has_value(
            conversion_of(c),
            "-t"@,
            match c.p.trim_duration {
                Some(d) => Some(seconds3(d as nat)),
                None => None,
            },
        ),
{
    lemma_options();
    lemma_values();
    lemma_cut_words(c);
    if c.p.audio_only {
        let p = audio_parts(c);
        lemma_only_audio(c, 2, "-i"@);
        lemma_only_audio(c, 1, "-ss"@);
        lemma_only_audio(c, 1, "-t"@);
        assert(p[1] == seek_spec(c.p));
        assert(p[2][0] == "-i"@ && p[2][1] == c.input);
        lemma_audio_value(c, 2, "-i"@, Some(c.input));
        lemma_audio_value(c, 1, "-ss"@, cut_of(c).0);
        lemma_audio_value(c, 1, "-t"@, cut_of(c).1);
    } else {
        let p = video_parts(c);
        lemma_only_video(c, 3, "-i"@);
        lemma_only_video(c, 2, "-ss"@);
        lemma_only_video(c, 2, "-t"@);
        assert(p[2] == seek_spec(c.p));
        assert(p[3][0] == "-i"@ && p[3][1] == c.input);
        lemma_video_value(c, 3, "-i"@, Some(c.input));
        lemma_video_value(c, 2, "-ss"@, cut_of(c).0);
        lemma_video_value(c, 2, "-t"@, cut_of(c).1);
    }
}

/// A video is made by the encoder of the profile and by no other; sound alone
/// has none.
pub proof fn a_video_is_made_by_its_encoder(c: Conversion)
    requires
        is_no_word(c, "-c:v"@),
        is_no_word(c, "-vn"@),
    ensures
        has_value(
            conversion_of(c),
            "-c:v"@,
            if c.p.audio_only {
                None
            } else {
                Some(c.p.video_codec@)
            },
        ),
        says(conversion_of(c), "-vn"@, c.p.audio_only),
{
    let cmd = conversion_of(c);
    lemma_options();
    lemma_values();
    if c.p.audio_only {
        let p = audio_parts(c);
        lemma_only_audio(c, 9, "-c:v"@);
        lemma_audio_value(c, 0, "-c:v"@, None);
        lemma_audio_parts(c);
        assert(p[2][2] == "-vn"@);
        lemma_strung_contains(p, 2, "-vn"@);
    } else {
        let p = video_parts(c);
        lemma_only_video(c, 6, "-c:v"@);
        assert(p[6][0] == "-c:v"@ && p[6][1] == c.p.video_codec@);
        lemma_video_value(c, 6, "-c:v"@, Some(c.p.video_codec@));
        lemma_only_video(c, 99, "-vn"@);
        lemma_video_value(c, 0, "-vn"@, None);
        if cmd.contains("-vn"@) {
            let i = choose|i: int| 0 <= i < cmd.len() && cmd[i] == "-vn"@;
            assert(cmd[i] != "-vn"@);
        }
    }
}

/// The sound is made as the profile says, at its rate; where the picture is
/// copied the sound is too.
pub proof fn the_sound_is_made_as_told(c: Conversion)
    requires
        is_no_word(c, "-c:a"@),
        is_no_word(c, "-b:a"@),
    ensures
        ({
            let copied = !c.p.audio_only && c.p.video_codec@ == "copy"@;
            &&& gives(
                conversion_of(c),
                "-c:a"@,
                if copied {
                    "copy"@
                } else {
                    c.p.audio_codec@
                },
            )
            &&& has_value(
                conversion_of(c),
                "-b:a"@,
                if copied {
                    None
                } else {
                    opt_text(c.p.audio_bitrate)
                },
            )
        }),
{
    let b = audio_bitrate_args(c.p);
    let rate = opt_text(c.p.audio_bitrate);
    lemma_options();
    lemma_values();
    if rate is Some {
        assert(b[0] == "-b:a"@ && b[1] == rate->0);
    }
    assert(has_value(b, "-b:a"@, rate));
    assert(lacks(b, "-c:a"@));
    if c.p.audio_only {
        let p = audio_parts(c);
        lemma_only_audio(c, 2, "-c:a"@);
        lemma_only_audio(c, 3, "-b:a"@);
        assert(p[2][7] == "-c:a"@ && p[2][8] == c.p.audio_codec@);
        assert(p[3] == b);
        lemma_audio_value(c, 2, "-c:a"@, Some(c.p.audio_codec@));
        lemma_audio_value(c, 3, "-b:a"@, rate);
    } else {
        let p = video_parts(c);
        let s = sound_args(c.p);
        let r = resample_args(c.p);
        lemma_only_video(c, 11, "-c:a"@);
        lemma_only_video(c, 11, "-b:a"@);
        assert(p[11] == s);
        assert(s[0] == "-c:a"@);
        if c.p.video_codec@ == "copy"@ {
            assert(s.len() == 2 && s[1] == "copy"@);
            lemma_video_value(c, 11, "-c:a"@, Some("copy"@));
            lemma_video_value(c, 11, "-b:a"@, None);
        } else {
            let head = seq!["-c:a"@, c.p.audio_codec@];
            assert(s == head + b + r);
            assert(lacks(r, "-c:a"@) && lacks(r, "-b:a"@));
            assert forall|i: int| 0 <= i < s.len() && #[trigger] s[i] == "-c:a"@ implies i == 0 by {
                if 2 <= i < 2 + b.len() {
                    assert(s[i] == b[i - 2]);
                } else if i >= 2 + b.len() {
                    assert(s[i] == r[i - 2 - b.len()]);
                }
            }
            assert forall|i: int| 0 <= i < s.len()
                && #[trigger] s[i] == "-b:a"@ implies rate is Some
                && i == 2 by {
                if 2 <= i < 2 + b.len() {
                    assert(s[i] == b[i - 2]);
                } else if i >= 2 + b.len() {
                    assert(s[i] == r[i - 2 - b.len()]);
                }
            }
            if rate is Some {
                assert(s[2] == b[0] && s[3] == b[1]);
            }
            lemma_video_value(c, 11, "-c:a"@, Some(c.p.audio_codec@));
            lemma_video_value(c, 11, "-b:a"@, rate);
        }
    }
}

/// The first picture and every sound are kept, and the tags; the chapters are
/// too unless a part of the source is cut away.
pub proof fn what_is_kept_of_the_source(c: Conversion)
    requires
        is_no_word(c, "-map_metadata"@),
        is_no_word(c, "-map_chapters"@),
    ensures
        gives(conversion_of(c), "-map_metadata"@, "0"@),
        !c.p.audio_only ==> {
            &&& asks(conversion_of(c), "-map"@, "0:v:0"@)
            &&& asks(conversion_of(c), "-map"@, "0:a?"@)
            &&& gives(
                conversion_of(c),
                "-map_chapters"@,
                if c.p.trim_start is Some || c.p.trim_duration is Some {
                    "-1"@
                } else {
                    "0"@
                },
            )
        },
        c.p.audio_only ==> asks(conversion_of(c), "-map"@, "0:a:0"@),
{
    lemma_options();
    lemma_values();
    if c.p.audio_only {
        let p = audio_parts(c);
        lemma_audio_parts(c);
        lemma_only_audio(c, 2, "-map_metadata"@);
        assert(p[2][3] == "-map"@ && p[2][4] == "0:a:0"@);
        assert(p[2][5] == "-map_metadata"@ && p[2][6] == "0"@);
        lemma_audio_value(c, 2, "-map_metadata"@, Some("0"@));
        lemma_strung_asks(p, 2, "-map"@, "0:a:0"@);
    } else {
        let p = video_parts(c);
        let m = map_args(c.p);
        lemma_video_parts(c);
        lemma_only_video(c, 4, "-map_metadata"@);
        lemma_only_video(c, 4, "-map_chapters"@);
        assert(p[4] == m);
        assert(m[0] == "-map"@ && m[1] == "0:v:0"@ && m[2] == "-map"@ && m[3] == "0:a?"@);
        assert(m[4] == "-map_metadata"@ && m[5] == "0"@ && m[6] == "-map_chapters"@);
        lemma_video_value(c, 4, "-map_metadata"@, Some("0"@));
        lemma_video_value(c, 4, "-map_chapters"@, Some(m[7]));
        lemma_strung_asks(p, 4, "-map"@, "0:v:0"@);
        lemma_strung_asks(p, 4, "-map"@, "0:a?"@);
    }
}

/// The colors of the source are carried over where that is asked for and the
/// picture is encoded, each property under its own option, and only then.
pub proof fn colors_are_carried_over(c: Conversion)
    requires
        !c.p.audio_only,
        is_no_word(c, "-color_primaries"@),
        is_no_word(c, "-color_trc"@),
        is_no_word(c, "-colorspace"@),
        is_no_word(c, "-color_range"@),
    ensures
        ({
            let kept = c.preserve && c.p.video_codec@ != "copy"@;
            let none = None::<Seq<char>>;
            let cmd = conversion_of(c);
            &&& has_value(
                cmd,
                "-color_primaries"@,
                if kept {
                    c.meta.at("color_primaries"@)
                } else {
                    none
                },
            )
            &&& has_value(
                cmd,
                "-color_trc"@,
                if kept {
                    c.meta.at("color_trc"@)
                } else {
                    none
                },
            )
            &&& has_value(
                cmd,
                "-colorspace"@,
                if kept {
                    c.meta.at("color_space"@)
                } else {
                    none
                },
            )
            &&& has_value(
                cmd,
                "-color_range"@,
                if kept {
                    c.meta.at("color_range"@)
                } else {
                    none
                },
            )
        }),
{
    let k = kept_color_args(c.p, c.meta, c.preserve);
    let kept = c.preserve && c.p.video_codec@ != "copy"@;
    lemma_options();
    lemma_color_words(c.meta);
    lemma_only_video(c, 9, "-color_primaries"@);
    lemma_only_video(c, 9, "-color_trc"@);
    lemma_only_video(c, 9, "-colorspace"@);
    lemma_only_video(c, 9, "-color_range"@);
    assert(video_parts(c)[9] == k);
    if kept {
        let a = color_arg(c.meta, 0);
        let b = color_arg(c.meta, 1);
        let d = color_arg(c.meta, 2);
        let e = color_arg(c.meta, 3);
        assert(k == a + b + d + e);
        lemma_color_value(c, 0, "-color_primaries"@, c.meta.at("color_primaries"@));
        lemma_color_value(c, 1, "-color_trc"@, c.meta.at("color_trc"@));
        lemma_color_value(c, 2, "-colorspace"@, c.meta.at("color_space"@));
        lemma_color_value(c, 3, "-color_range"@, c.meta.at("color_range"@));
        lemma_video_value(c, 9, "-color_primaries"@, c.meta.at("color_primaries"@));
        lemma_video_value(c, 9, "-color_trc"@, c.meta.at("color_trc"@));
        lemma_video_value(c, 9, "-colorspace"@, c.meta.at("color_space"@));
        lemma_video_value(c, 9, "-color_range"@, c.meta.at("color_range"@));
    } else {
        lemma_video_value(c, 9, "-color_primaries"@, None);
        lemma_video_value(c, 9, "-color_trc"@, None);
        lemma_video_value(c, 9, "-colorspace"@, None);
        lemma_video_value(c, 9, "-color_range"@, None);
    }
}

proof fn lemma_color_value(c: Conversion, j: int, option: Seq<char>, value: Option<Seq<char>>)
    requires
        0 <= j < 4,
        is_no_word(c, option),
        option == COLOR_FLAGS@[j].1@,
        value == c.meta.at(COLOR_FLAGS@[j].0@),
    ensures
        has_value(color_args(c.meta, 4), option, value),
{
    let m = c.meta;
    lemma_options();
    lemma_color_words(m);
    let parts = seq![color_arg(m, 0), color_arg(m, 1), color_arg(m, 2), color_arg(m, 3)];
    reveal_with_fuel(strung, 5);
    assert(parts.drop_last() =~= seq![color_arg(m, 0), color_arg(m, 1), color_arg(m, 2)]);
    assert(parts.drop_last().drop_last() =~= seq![color_arg(m, 0), color_arg(m, 1)]);
    assert(parts.drop_last().drop_last().drop_last() =~= seq![color_arg(m, 0)]);
    assert(parts.drop_last().drop_last().drop_last().drop_last() =~= seq![]);
    assert(strung(parts) =~= color_args(m, 4));
    assert(j == 0 || j == 1 || j == 2 || j == 3);
    assert(COLOR_FLAGS@[0].1@ == "-color_primaries"@ && COLOR_FLAGS@[1].1@ == "-color_trc"@);
    assert(COLOR_FLAGS@[2].1@ == "-colorspace"@ && COLOR_FLAGS@[3].1@ == "-color_range"@);
    assert forall|i: int| 0 <= i < 4 && i != j implies lacks(#[trigger] parts[i], option) by {
        assert(i == 0 || i == 1 || i == 2 || i == 3);
    }
    match value {
        Some(v) => {
            assert(parts[j][0] == option && parts[j][1] == v);
            assert(gives(parts[j], option, v));
            lemma_strung_gives(parts, j, option, v);
        },
        None => {
            assert(parts[j].len() == 0);
            assert forall|i: int| 0 <= i < parts.len() implies lacks(#[trigger] parts[i], option) by {
                if i == j {
                }
            }
            lemma_strung_lacks(parts, option);
        },
    }
}

/// A picture that is encoded is resampled to 48 kHz stereo unless its sound is
/// uncompressed, software encoders use every core, and an MP4, M4V or MOV file
/// gets its index in front.
pub proof fn a_video_is_ready_to_play(c: Conversion)
    requires
        !c.p.audio_only,
        is_no_word(c, "-threads"@),
        is_no_word(c, "-movflags"@),
    ensures
        has_value(
            conversion_of(c),
            "-threads"@,
            if c.p.video_codec@ == "libx264"@ || c.p.video_codec@ == "libx265"@ || c.p.video_codec@
                == "libvpx-vp9"@ || c.p.video_codec@ == "libsvtav1"@ {
                Some("0"@)
            } else {
                None
            },
        ),
        has_value(
            conversion_of(c),
            "-movflags"@,
            if c.p.video_codec@ != "copy"@ && (".mp4"@.is_suffix_of(c.lower)
                || ".m4v"@.is_suffix_of(c.lower) || ".mov"@.is_suffix_of(c.lower)) {
                Some("+faststart"@)
            } else {
                None
            },
        ),
{
    let t = thread_args(c.p);
    let f = faststart_args(c.p, c.lower);
    let v = c.p.video_codec@;
    lemma_options();
    lemma_values();
    lemma_only_video(c, 10, "-threads"@);
    lemma_only_video(c, 12, "-movflags"@);
    assert(video_parts(c)[10] == t && video_parts(c)[12] == f);
    assert(THREADED_CODECS@[0]@ == "libx264"@ && THREADED_CODECS@[1]@ == "libx265"@);
    assert(THREADED_CODECS@[2]@ == "libvpx-vp9"@ && THREADED_CODECS@[3]@ == "libsvtav1"@);
    assert(THREADED_CODECS@.len() == 4);
    let cores: Option<Seq<char>> = if v == "libx264"@ || v == "libx265"@ || v == "libvpx-vp9"@ || v
        == "libsvtav1"@ {
        Some("0"@)
    } else {
        None
    };
    if cores is Some {
        assert(t[0] == "-threads"@ && t[1] == "0"@);
    } else {
        assert(t.len() == 0);
    }
    lemma_video_value(c, 10, "-threads"@, cores);
    if f.len() > 0 {
        assert(f[0] == "-movflags"@ && f[1] == "+faststart"@);
        lemma_video_value(c, 12, "-movflags"@, Some("+faststart"@));
    } else {
        lemma_video_value(c, 12, "-movflags"@, None);
    }
}

/// FFmpeg never asks back, and reports its progress where it is read.
pub proof fn ffmpeg_reports_and_never_asks(c: Conversion)
    requires
        is_no_word(c, "-progress"@),
    ensures
        gives(conversion_of(c), "-progress"@, "pipe:1"@),
        conversion_of(c).contains("-nostdin"@),
        conversion_of(c).contains("-y"@),
{
    let m = common_args(c.ffmpeg);
    lemma_options();
    lemma_values();
    assert(m[2] == "-nostdin"@ && m[3] == "-y"@ && m[4] == "-progress"@ && m[5] == "pipe:1"@);
    if c.p.audio_only {
        lemma_audio_parts(c);
        lemma_only_audio(c, 0, "-progress"@);
        assert(audio_parts(c)[0] == m);
        lemma_audio_value(c, 0, "-progress"@, Some("pipe:1"@));
        lemma_strung_contains(audio_parts(c), 0, "-nostdin"@);
        lemma_strung_contains(audio_parts(c), 0, "-y"@);
    } else {
        lemma_video_parts(c);
        lemma_only_video(c, 0, "-progress"@);
        assert(video_parts(c)[0] == m);
        lemma_video_value(c, 0, "-progress"@, Some("pipe:1"@));
        lemma_strung_contains(video_parts(c), 0, "-nostdin"@);
        lemma_strung_contains(video_parts(c), 0, "-y"@);
    }
}

/// A picture that is encoded gets a pixel format every player knows, unless the
/// options of its encoder name one.
pub proof fn a_pixel_format_is_always_named(c: Conversion)
    requires
        !c.p.audio_only,
        c.p.video_codec@ != "copy"@,
    ensures
        lacks(texts(c.p.extra@), "-pix_fmt"@) ==> asks(
            conversion_of(c),
            "-pix_fmt"@,
            "yuv420p"@,
        ),
        forall|v: Seq<char>|
            asks(texts(c.p.extra@), "-pix_fmt"@, v) ==> #[trigger] asks(
                conversion_of(c),
                "-pix_fmt"@,
                v,
            ),
{
    let p = video_parts(c);
    let e = texts(c.p.extra@);
    lemma_video_parts(c);
    if lacks(e, "-pix_fmt"@) {
        assert(!e.contains("-pix_fmt"@)) by {
            if e.contains("-pix_fmt"@) {
                let i = choose|i: int| 0 <= i < e.len() && e[i] == "-pix_fmt"@;
                assert(e[i] != "-pix_fmt"@);
            }
        }
        assert(p[5][0] == "-pix_fmt"@ && p[5][1] == "yuv420p"@);
        lemma_strung_asks(p, 5, "-pix_fmt"@, "yuv420p"@);
    }
    assert forall|v: Seq<char>| asks(e, "-pix_fmt"@, v) implies #[trigger] asks(
        conversion_of(c),
        "-pix_fmt"@,
        v,
    ) by {
        assert(p[8] == e);
        lemma_strung_asks(p, 8, "-pix_fmt"@, v);
    }
}

/// Whatever the options of the encoder ask for, the command asks for: the
/// quality, the profile and the pixel format reach FFmpeg.
pub proof fn the_encoder_gets_its_options(c: Conversion, option: Seq<char>, value: Seq<char>)
    requires
        !c.p.audio_only,
        asks(texts(c.p.extra@), option, value),
    ensures
        asks(conversion_of(c), option, value),
{
    lemma_video_parts(c);
    assert(video_parts(c)[8] == texts(c.p.extra@));
    lemma_strung_asks(video_parts(c), 8, option, value);
}

/// The preset of the profile is passed on to an encoder that knows presets, and
/// to no other.
pub proof fn the_preset_reaches_the_encoder(c: Conversion)
    requires
        !c.p.audio_only,
        is_no_word(c, "-preset"@),
    ensures
        has_value(
            conversion_of(c),
            "-preset"@,
            if c.p.video_codec@ == "copy"@ || c.p.video_codec@ == "prores_ks"@ || c.p.video_codec@
                == "dnxhd"@ {
                None
            } else {
                opt_text(c.p.preset)
            },
        ),
{
    let a = preset_args(c.p);
    lemma_options();
    lemma_only_video(c, 7, "-preset"@);
    assert(video_parts(c)[7] == a);
    if a.len() > 0 {
        assert(a[0] == "-preset"@ && a[1] == opt_text(c.p.preset)->0);
        lemma_video_value(c, 7, "-preset"@, opt_text(c.p.preset));
    } else {
        lemma_video_value(c, 7, "-preset"@, None);
    }
}

// ---------------- laws of the cut and of the bitrate ----------------

proof fn lemma_nearest(n: nat, d: nat)
    requires
        d > 0,
    ensures
        2 * (nearest(n, d) * d) <= 2 * n + d,
        2 * n <= 2 * (nearest(n, d) * d) + d,
{
    let q = n / d;
    let r = n % d;
    vstd::arithmetic::div_mod::lemma_fundamental_div_mod(n as int, d as int);
    assert(n == d * q + r);
    assert(q * d == d * q) by (nonlinear_arith);
    assert((q + 1) * d == d * q + d) by (nonlinear_arith);
}

proof fn lemma_millis(v: nat, unit: nat, ns: nat)
    requires
        unit > 0,
        v == ns * unit,
        0 < ns <= u64::MAX,
    ensures
        ns - 510_000 <= millis_over(v, unit) * 1_000_000 <= ns + 510_000,
    decreases 2 * FULL_DOUBLE - v,
{
    if v < FULL_DOUBLE {
        assert(2 * v == ns * (2 * unit)) by (nonlinear_arith)
            requires
                v == ns * unit,
        ;
        assert(v > 0) by (nonlinear_arith)
            requires
                v == ns * unit,
                ns > 0,
                unit > 0,
        ;
        lemma_millis(2 * v, 2 * unit, ns);
    } else {
        let s = nearest(v, 1_000_000_000);
        let m = nearest(1000 * s, unit);
        lemma_nearest(v, 1_000_000_000);
        lemma_nearest(1000 * s, unit);
        assert(unit > 100_000) by (nonlinear_arith)
            requires
                v == ns * unit,
                v >= FULL_DOUBLE,
                ns <= u64::MAX,
        ;
        let a = m * unit;
        assert(2 * a <= 2000 * s + unit);
        assert(2000 * s <= 2 * a + unit);
        assert(2 * (s * 1_000_000_000) <= 2 * v + 1_000_000_000);
        assert(2 * v <= 2 * (s * 1_000_000_000) + 1_000_000_000);
        assert(2 * (a * 1_000_000) <= 2 * v + 1_000_000_000 + unit * 1_000_000);
        assert(2 * v <= 2 * (a * 1_000_000) + unit * 1_000_000 + 1_000_000_000);
        assert(1_000_000_000 <= unit * 10_000);
        assert(m * 1_000_000 <= ns + 510_000) by (nonlinear_arith)
            requires
                2 * (a * 1_000_000) <= 2 * v + unit * 1_010_000,
                a == m * unit,
                v == ns * unit,
                unit > 0,
        ;
        assert(ns <= m * 1_000_000 + 510_000) by (nonlinear_arith)
            requires
                2 * v <= 2 * (a * 1_000_000) + unit * 1_010_000,
                a == m * unit,
                v == ns * unit,
                unit > 0,
        ;
    }
}

/// A cut is written to the millisecond: whole milliseconds as they are, and
/// anything between two as one that is no further off than about half of one.
pub proof fn a_cut_is_written_to_the_millisecond(ns: nat)
    requires
        0 < ns <= u64::MAX,
    ensures
        ({
            let ms = millis_over(ns, 1);
            &&& ns - 510_000 <= ms * 1_000_000 <= ns + 510_000
            &&& ns % 1_000_000 == 0 ==> ms == ns / 1_000_000
            &&& seconds3(ns) == dec(ms / 1000) + seq!['.'] + dec3(ms % 1000)
        }),
{
    lemma_millis(ns, 1, ns);
    let ms = millis_over(ns, 1);
    assert(seconds3(ns) =~= dec(ms / 1000) + seq!['.'] + dec3(ms % 1000));
}

/// A bitrate of one's own is asked for in megabits, with a ceiling of half as
/// much again and a buffer of twice as much.
pub proof fn a_bitrate_is_asked_for_in_megabits(br: nat)
    ensures
        gives(bitrate_args(br as int), "-b:v"@, dec(br).push('M')),
        gives(bitrate_args(br as int), "-maxrate"@, dec(3 * br / 2).push('M')),
        gives(bitrate_args(br as int), "-bufsize"@, dec(2 * br).push('M')),
{
    let b = bitrate_args(br as int);
    lemma_options();
    dec_reads_back(br);
    dec_reads_back(3 * br / 2);
    dec_reads_back(2 * br);
    assert(is_digit(dec(br)[0]) && is_digit(dec(3 * br / 2)[0]) && is_digit(dec(2 * br)[0]));
    assert(b[0] == "-b:v"@ && b[1] == dec(br).push('M'));
    assert(b[2] == "-maxrate"@ && b[3] == dec(3 * br / 2).push('M'));
    assert(b[4] == "-bufsize"@ && b[5] == dec(2 * br).push('M'));
    assert(b[1][0] == dec(br)[0] && b[3][0] == dec(3 * br / 2)[0] && b[5][0] == dec(2 * br)[0]);
}

/// Ten bits per sample are told by the name of the pixel format.
pub proof fn ten_bits_are_told_by_the_pixel_format(f: Seq<char>)
    ensures
        is_ten_bit(Some(f)) <==> within(f, "10"@),
        !is_ten_bit(None),
{
    reveal_strlit("10");
    reveal_strlit("p010");
    if within(f, "p010"@) {
        let i = choose|i: int| is_at(f, "p010"@, i);
        assert(f.subrange(i, i + 4)[2] == '1' && f.subrange(i, i + 4)[3] == '0');
        assert(f.subrange(i + 2, i + 4) =~= "10"@);
        assert(is_at(f, "10"@, i + 2));
    }
}

/// A word that the options of an encoder may hold: one of theirs, or a value.
spec fn is_encoder_word(w: Seq<char>) -> bool {
    ||| !is_option(w)
    ||| w == "-rc"@
    ||| w == "-cq"@
    ||| w == "-b:v"@
    ||| w == "-multipass"@
    ||| w == "-rc-lookahead"@
    ||| w == "-spatial-aq"@
    ||| w == "-temporal-aq"@
    ||| w == "-bf"@
    ||| w == "-refs"@
    ||| w == "-profile:v"@
    ||| w == "-tag:v"@
    ||| w == "-qp_i"@
    ||| w == "-qp_p"@
    ||| w == "-qp_b"@
    ||| w == "-global_quality"@
    ||| w == "-crf"@
    ||| w == "-x265-params"@
    ||| w == "-row-mt"@
    ||| w == "-g"@
    ||| w == "-fps_mode"@
    ||| w == "-r"@
    ||| w == "-pix_fmt"@
    ||| w == "-preset"@
    ||| w == "-maxrate"@
    ||| w == "-bufsize"@
}

spec fn are_encoder_words(s: Seq<Seq<char>>) -> bool {
    forall|i: int| 0 <= i < s.len() ==> is_encoder_word(#[trigger] s[i])
}

proof fn lemma_recipe_words(key: Seq<char>, hw: Seq<char>, crf: int, ten_bit: bool)
    ensures
        are_encoder_words(recipe(key, hw, crf, ten_bit).extra),
{
    lemma_values();
    lemma_number_is_no_option(crf);
    lemma_number_is_no_option(crf + 3);
    assert(are_encoder_words(av1_recipe(hw, crf, ten_bit).extra));
    assert(are_encoder_words(youtube_av1_recipe(hw).extra));
    assert(are_encoder_words(nvenc_recipe(true, crf).extra));
    assert(are_encoder_words(nvenc_recipe(false, crf).extra));
    assert(are_encoder_words(h26x_recipe(true, hw, crf, ten_bit).extra));
    assert(are_encoder_words(h26x_recipe(false, hw, crf, ten_bit).extra));
}

proof fn lemma_kept_words(args: Seq<Seq<char>>)
    requires
        are_encoder_words(args),
    ensures
        are_encoder_words(without_quality(args)),
    decreases args.len(),
{
    let r = without_quality(args);
    if args.len() == 0 {
    } else if is_quality_flag(args[0]) {
        if args.len() > 1 {
            let rest = args.skip(2);
            assert forall|i: int| 0 <= i < rest.len() implies is_encoder_word(
                #[trigger] rest[i],
            ) by {
                assert(rest[i] == args[i + 2]);
            }
            lemma_kept_words(rest);
        }
    } else {
        let rest = args.skip(1);
        assert forall|i: int| 0 <= i < rest.len() implies is_encoder_word(#[trigger] rest[i]) by {
            assert(rest[i] == args[i + 1]);
        }
        lemma_kept_words(rest);
        let t = without_quality(rest);
        assert forall|i: int| 0 <= i < r.len() implies is_encoder_word(#[trigger] r[i]) by {
            if i == 0 {
                assert(r[0] == args[0]);
            } else {
                assert(r[i] == t[i - 1]);
            }
        }
    }
}

proof fn lemma_megabits_are_no_option(i: int)
    ensures
        !is_option(int_dec(i).push('M')),
{
    let n: nat = if i < 0 {
        (-i) as nat
    } else {
        i as nat
    };
    dec_reads_back(n);
    assert(is_digit(dec(n)[0]));
    if i < 0 {
        assert(int_dec(i)[1] == dec(n)[0]);
    }
}

/// The options of an encoder choose neither the input nor the streams, the sound
/// or the cut: those are what the conversion says they are.
pub proof fn an_encoder_keeps_to_itself(
    p: Profile,
    params: ConvertParams,
    hw: Seq<char>,
    pix_fmt: Option<Seq<char>>,
    word: Seq<char>,
)
    requires
        is_profile_of(p, params, hw, pix_fmt),
        word == "-i"@ || word == "-vn"@ || word == "-map"@ || word == "-map_metadata"@
            || word == "-c:a"@ || word == "-b:a"@ || word == "-map_chapters"@
            || word == "-color_primaries"@ || word == "-color_trc"@ || word == "-colorspace"@
            || word == "-color_range"@ || word == "-threads"@ || word == "-ar"@
            || word == "-ac"@ || word == "-movflags"@ || word == "-c:v"@ || word == "-ss"@
            || word == "-t"@ || word == "-progress"@,
    ensures
        lacks(texts(p.extra@), word),
{
    let r = recipe(params.codec_key@, hw, params.crf as int, is_ten_bit(pix_fmt));
    let e = texts(p.extra@);
    let br = params.custom_br as int;
    lemma_options();
    lemma_recipe_words(params.codec_key@, hw, params.crf as int, is_ten_bit(pix_fmt));
    lemma_kept_words(r.extra);
    lemma_megabits_are_no_option(br);
    lemma_megabits_are_no_option(half_toward_zero(3 * br));
    lemma_megabits_are_no_option(2 * br);
    assert(are_encoder_words(bitrate_args(br)));
    assert(are_encoder_words(e)) by {
        let k = without_quality(r.extra);
        let b = bitrate_args(br);
        if e == k + b {
            assert forall|i: int| 0 <= i < e.len() implies is_encoder_word(#[trigger] e[i]) by {
                if i < k.len() {
                    assert(e[i] == k[i]);
                } else {
                    assert(e[i] == b[i - k.len()]);
                }
            }
        }
    }
    assert forall|i: int| 0 <= i < e.len() implies #[trigger] e[i] != word by {
        assert(is_encoder_word(e[i]));
    }
}

/// A quality option is one of these, each with a value of its own.
pub proof fn these_options_ask_for_a_quality(w: Seq<char>)
    ensures
        is_quality_flag(w) <==> w == "-crf"@ || w == "-cq"@ || w == "-global_quality"@ || w
            == "-qp_i"@ || w == "-qp_p"@ || w == "-qp_b"@,
{
    assert(QUALITY_FLAGS@[0]@ == "-crf"@ && QUALITY_FLAGS@[1]@ == "-cq"@);
    assert(QUALITY_FLAGS@[2]@ == "-global_quality"@ && QUALITY_FLAGS@[3]@ == "-qp_i"@);
    assert(QUALITY_FLAGS@[4]@ == "-qp_p"@ && QUALITY_FLAGS@[5]@ == "-qp_b"@);
    assert(QUALITY_FLAGS@.len() == 6);
}

/// When the quality gives way to a bitrate, every other option stays with its
/// value. The arguments are pairs of an option and a value.
pub proof fn the_other_options_stay(args: Seq<Seq<char>>, i: int)
    requires
        args.len() % 2 == 0,
        forall|j: int|
            0 <= j < args.len() && j % 2 == 1 ==> !is_quality_flag(#[trigger] args[j]),
        0 <= i < args.len(),
        i % 2 == 0,
        !is_quality_flag(args[i]),
    ensures
        asks(without_quality(args), args[i], args[i + 1]),
    decreases args.len(),
{
    let rest = args.skip(2);
    let w = without_quality(args);
    let t = without_quality(rest);
    assert forall|j: int| 0 <= j < rest.len() && j % 2 == 1 implies !is_quality_flag(
        #[trigger] rest[j],
    ) by {
        assert(rest[j] == args[j + 2]);
    }
    let n: int = if is_quality_flag(args[0]) {
        0
    } else {
        2
    };
    if !is_quality_flag(args[0]) {
        assert(args.skip(1)[0] == args[1]);
        assert(!is_quality_flag(args[1]));
        assert(args.skip(1).skip(1) =~= rest);
        assert(without_quality(args.skip(1)) == seq![args[1]] + t);
        assert(w =~= seq![args[0], args[1]] + t);
    } else {
        assert(w == t);
    }
    if i == 0 {
        assert(w[0] == args[0] && w[1] == args[1]);
    } else {
        assert(rest[i - 2] == args[i] && rest[i - 1] == args[i + 1]);
        the_other_options_stay(rest, i - 2);
        let k = choose|k: int|
            0 <= k && k + 1 < t.len() && #[trigger] t[k] == args[i] && t[k + 1] == args[i + 1];
        assert(w[k + n] == t[k] && w[k + n + 1] == t[k + 1]);
    }
}

} // verus!
