//! What ffprobe is asked, and what its answers say.

use crate::dict::Dict;
use crate::number::{parse_u64, parse_unsigned, unsigned_of};
use crate::text::{
    cut_first, is_at, lemma_first_is, line_list, lines, lowered, opt_pair, opt_str, opt_text, owned,
    same, split_once, str_in, texts, to_lowercase, trim, trimmed,
};
use crate::types::MediaInfo;
use vstd::prelude::*;

verus! {

// ---------------- questions ----------------

/// The question after the length of a file.
pub open spec fn length_question(file: Seq<char>) -> Seq<Seq<char>> {
    seq![
        "-v"@,
        "quiet"@,
        "-show_entries"@,
        "format=duration"@,
        "-of"@,
        "default=noprint_wrappers=1:nokey=1"@,
        file,
    ]
}

/// The arguments that ask for the length of a file.
pub fn duration_args(file: &str) -> (r: Vec<String>)
    ensures
        texts(r@) == length_question(file@),
{
    owned(
        &[
            "-v",
            "quiet",
            "-show_entries",
            "format=duration",
            "-of",
            "default=noprint_wrappers=1:nokey=1",
            file,
        ],
    )
}

/// The question after the pixel format of the picture.
pub open spec fn pix_fmt_question(file: Seq<char>) -> Seq<Seq<char>> {
    seq![
        "-v"@,
        "quiet"@,
        "-select_streams"@,
        "v:0"@,
        "-show_entries"@,
        "stream=pix_fmt"@,
        "-of"@,
        "default=noprint_wrappers=1:nokey=1"@,
        file,
    ]
}

/// The arguments that ask for the pixel format of a file.
pub fn pix_fmt_query(file: &str) -> (r: Vec<String>)
    ensures
        texts(r@) == pix_fmt_question(file@),
{
    owned(
        &[
            "-v",
            "quiet",
            "-select_streams",
            "v:0",
            "-show_entries",
            "stream=pix_fmt",
            "-of",
            "default=noprint_wrappers=1:nokey=1",
            file,
        ],
    )
}

/// The question after the colors of the picture.
pub open spec fn color_question(file: Seq<char>) -> Seq<Seq<char>> {
    seq![
        "-v"@,
        "quiet"@,
        "-select_streams"@,
        "v:0"@,
        "-show_entries"@,
        "stream=color_primaries,color_trc,color_space,color_range"@,
        "-of"@,
        "default=noprint_wrappers=1"@,
        file,
    ]
}

/// The arguments that ask for the color properties of a file.
pub fn color_query(file: &str) -> (r: Vec<String>)
    ensures
        texts(r@) == color_question(file@),
{
    owned(
        &[
            "-v",
            "quiet",
            "-select_streams",
            "v:0",
            "-show_entries",
            "stream=color_primaries,color_trc,color_space,color_range",
            "-of",
            "default=noprint_wrappers=1",
            file,
        ],
    )
}

/// The question after the facts that are shown of a file.
pub open spec fn media_question(file: Seq<char>) -> Seq<Seq<char>> {
    seq![
        "-v"@,
        "quiet"@,
        "-select_streams"@,
        "v:0"@,
        "-show_entries"@,
        "stream=codec_name,width,height,r_frame_rate"@,
        "-show_entries"@,
        "format=duration,size,bit_rate"@,
        "-of"@,
        "default=noprint_wrappers=1"@,
        file,
    ]
}

/// The arguments that ask for the video stream and the container of a file.
pub fn media_query(file: &str) -> (r: Vec<String>)
    ensures
        texts(r@) == media_question(file@),
{
    owned(
        &[
            "-v",
            "quiet",
            "-select_streams",
            "v:0",
            "-show_entries",
            "stream=codec_name,width,height,r_frame_rate",
            "-show_entries",
            "format=duration,size,bit_rate",
            "-of",
            "default=noprint_wrappers=1",
            file,
        ],
    )
}

/// The question after the codec of the sound.
pub open spec fn audio_question(file: Seq<char>) -> Seq<Seq<char>> {
    seq![
        "-v"@,
        "quiet"@,
        "-select_streams"@,
        "a:0"@,
        "-show_entries"@,
        "stream=codec_name"@,
        "-of"@,
        "default=noprint_wrappers=1:nokey=1"@,
        file,
    ]
}

/// The arguments that ask for the audio codec of a file.
pub fn audio_query(file: &str) -> (r: Vec<String>)
    ensures
        texts(r@) == audio_question(file@),
{
    owned(
        &[
            "-v",
            "quiet",
            "-select_streams",
            "a:0",
            "-show_entries",
            "stream=codec_name",
            "-of",
            "default=noprint_wrappers=1:nokey=1",
            file,
        ],
    )
}

// ---------------- answers ----------------

/// What ffprobe answered.
pub open spec fn answer_of(success: bool, text: Seq<char>) -> Option<Seq<char>> {
    if success && text.len() > 0 {
        Some(text)
    } else {
        None
    }
}

/// The answer of an ffprobe run: what it printed, if it went well and said
/// anything.
pub fn ffprobe_value(success: bool, stdout: &str) -> (r: Option<String>)
    ensures
        opt_text(r) == answer_of(success, trimmed(stdout@)),
{
    if !success {
        return None;
    }
    let s = trim(stdout);
    if s.as_str().is_empty() {
        None
    } else {
        Some(s)
    }
}

/// The key and the value of a line, without white space around them.
pub open spec fn key_value(line: Seq<char>) -> Option<(Seq<char>, Seq<char>)> {
    match cut_first(line, "="@) {
        Some((k, v)) => Some((trimmed(k), trimmed(v))),
        None => None,
    }
}

/// Splits a line into its key and its value.
pub fn split_key_value(line: &str) -> (r: Option<(String, String)>)
    ensures
        opt_pair(r) == key_value(line@),
{
    match split_once(line, "=") {
        Some((k, v)) => Some((trim(k.as_str()), trim(v.as_str()))),
        None => None,
    }
}

/// What ffprobe prints for a color property it does not know.
pub const UNKNOWN_COLORS: [&'static str; 4] = ["unknown", "n/a", "und", "reserved"];

/// `lower` is the lowercase of a value that says nothing.
pub open spec fn is_unknown_color(lower: Seq<char>) -> bool {
    exists|i: int| 0 <= i < UNKNOWN_COLORS@.len() && #[trigger] UNKNOWN_COLORS@[i]@ == lower
}

/// Whether a lowercase value says nothing.
pub fn unknown_color(lower: &str) -> (r: bool)
    ensures
        r == is_unknown_color(lower@),
{
    str_in(&UNKNOWN_COLORS, lower)
}

/// What a line tells of a color property, where it does.
pub open spec fn color_line(line: Seq<char>) -> Option<(Seq<char>, Seq<char>)> {
    match key_value(line) {
        Some((k, v)) => if v.len() > 0 && !is_unknown_color(lowered(v)) {
            Some((k, v))
        } else {
            None
        },
        None => None,
    }
}

/// What the last line for a key tells, where one does.
pub open spec fn color_of(lines: Seq<Seq<char>>, key: Seq<char>) -> Option<Seq<char>>
    decreases lines.len(),
{
    if lines.len() == 0 {
        None
    } else {
        match color_line(lines.last()) {
            Some((k, v)) => if k == key {
                Some(v)
            } else {
                color_of(lines.drop_last(), key)
            },
            None => color_of(lines.drop_last(), key),
        }
    }
}

/// The color properties that an answer tells.
pub fn probe_color_meta(answer: &str) -> (r: Dict)
    ensures
        r.wf(),
        forall|k: Seq<char>| #[trigger] r.at(k) == color_of(line_list(answer@), k),
{
    let all = lines(answer);
    let mut meta = Dict::new();
    let ghost ls = texts(all@);
    for i in 0..all.len()
        invariant
            ls == texts(all@),
            meta.wf(),
            forall|k: Seq<char>| #[trigger] meta.at(k) == color_of(ls.take(i as int), k),
    {
        let ghost upto = ls.take(i + 1);
        assert(upto.drop_last() =~= ls.take(i as int));
        assert(upto.last() == all@[i as int]@);
        if let Some((k, v)) = split_key_value(all[i].as_str()) {
            let lower = to_lowercase(v.as_str());
            if !v.as_str().is_empty() && !unknown_color(lower.as_str()) {
                meta.insert(k.as_str(), v.as_str());
            }
        }
        assert forall|k: Seq<char>| #[trigger] meta.at(k) == color_of(upto, k) by {}
    }
    assert(ls.take(ls.len() as int) =~= ls);
    meta
}

/// The two numbers of a frame rate, which ffprobe reports as an exact fraction
/// ("30000/1001").
pub fn parse_frame_rate(text: &str) -> (r: Option<(String, String)>)
    ensures
        opt_pair(r) == cut_first(text@, "/"@),
{
    split_once(text, "/")
}

/// What the lines of an answer tell of a file.
#[verifier::ext_equal]
pub struct Facts {
    pub vcodec: Seq<char>,
    pub width: nat,
    pub height: nat,
    pub fps: Option<(Seq<char>, Seq<char>)>,
    pub duration: Option<Seq<char>>,
    pub size: nat,
    pub bit_rate: Option<nat>,
}

/// A number that is read, or zero.
pub open spec fn or_zero(n: Option<nat>) -> nat {
    match n {
        Some(k) => k,
        None => 0,
    }
}

/// What is known once a line more is read.
pub open spec fn facts_with(f: Facts, line: Seq<char>) -> Facts {
    match key_value(line) {
        Some((k, v)) => if k == "codec_name"@ {
            Facts { vcodec: v, ..f }
        } else if k == "width"@ {
            Facts { width: or_zero(unsigned_of(v, u32::MAX as nat)), ..f }
        } else if k == "height"@ {
            Facts { height: or_zero(unsigned_of(v, u32::MAX as nat)), ..f }
        } else if k == "r_frame_rate"@ {
            Facts { fps: cut_first(v, "/"@), ..f }
        } else if k == "duration"@ {
            Facts { duration: Some(v), ..f }
        } else if k == "size"@ {
            Facts { size: or_zero(unsigned_of(v, u64::MAX as nat)), ..f }
        } else if k == "bit_rate"@ {
            Facts { bit_rate: unsigned_of(v, u64::MAX as nat), ..f }
        } else {
            f
        },
        None => f,
    }
}

/// What the lines of an answer tell: of several for the same thing the last
/// counts.
pub open spec fn facts_of(lines: Seq<Seq<char>>) -> Facts
    decreases lines.len(),
{
    if lines.len() == 0 {
        Facts {
            vcodec: seq![],
            width: 0,
            height: 0,
            fps: None,
            duration: None,
            size: 0,
            bit_rate: None,
        }
    } else {
        facts_with(facts_of(lines.drop_last()), lines.last())
    }
}

/// The contents of an optional number.
pub open spec fn opt_nat(o: Option<u64>) -> Option<nat> {
    match o {
        Some(n) => Some(n as nat),
        None => None,
    }
}

/// What a summary holds of the video stream and the container.
pub open spec fn facts_in(info: MediaInfo) -> Facts {
    Facts {
        vcodec: info.vcodec@,
        width: info.width as nat,
        height: info.height as nat,
        fps: opt_pair(info.fps),
        duration: opt_text(info.duration),
        size: info.size_bytes as nat,
        bit_rate: opt_nat(info.bit_rate),
    }
}

fn u32_or_zero(v: &str) -> (r: u32)
    ensures
        r == or_zero(unsigned_of(v@, u32::MAX as nat)),
{
    match parse_unsigned(v, u32::MAX as u64) {
        Some(n) => n as u32,
        None => 0,
    }
}

fn u64_or_zero(v: &str) -> (r: u64)
    ensures
        r == or_zero(unsigned_of(v@, u64::MAX as nat)),
{
    match parse_u64(v) {
        Some(n) => n,
        None => 0,
    }
}

fn read_fact(info: &mut MediaInfo, line: &str)
    ensures
        facts_in(*final(info)) == facts_with(facts_in(*old(info)), line@),
        final(info).path@ == old(info).path@,
        final(info).acodec@ == old(info).acodec@,
{
    if let Some((key, val)) = split_key_value(line) {
        let k = key.as_str();
        if same(k, "codec_name") {
            info.vcodec = val;
        } else if same(k, "width") {
            info.width = u32_or_zero(val.as_str());
        } else if same(k, "height") {
            info.height = u32_or_zero(val.as_str());
        } else if same(k, "r_frame_rate") {
            info.fps = parse_frame_rate(val.as_str());
        } else if same(k, "duration") {
            info.duration = Some(val);
        } else if same(k, "size") {
            info.size_bytes = u64_or_zero(val.as_str());
        } else if same(k, "bit_rate") {
            info.bit_rate = parse_u64(val.as_str());
        }
    }
}

/// What is shown of a file: the facts that ffprobe told, with the length of the
/// file where it told no size.
pub open spec fn is_info(
    info: MediaInfo,
    file: Seq<char>,
    f: Facts,
    audio: Option<Seq<char>>,
    file_len: nat,
) -> bool {
    &&& info.path@ == file
    &&& facts_in(info) == (Facts {
        size: if f.size == 0 {
            file_len
        } else {
            f.size
        },
        ..f
    })
    &&& info.acodec@ == (match audio {
        Some(a) => a,
        None => Seq::empty(),
    })
}

/// Everything the Convert tab's summary shows about the chosen input.
///
/// `video` is the answer about the video stream and the container, which carry
/// most of it; `audio` is the one about the audio codec, which needs its own
/// stream selector. Where no size is told, that of the file on disk stands in.
/// Without an answer about the video there is no summary.
pub fn probe_media_info(
    file: &str,
    video: Option<&str>,
    audio: Option<&str>,
    file_len: u64,
) -> (r: Option<MediaInfo>)
    ensures
        r is Some == video is Some,
        r is Some ==> is_info(
            r->0,
            file@,
            facts_of(line_list(video->0@)),
            opt_str(audio),
            file_len as nat,
        ),
{
    match video {
        None => None,
        Some(answer) => {
            let mut info = MediaInfo::default();
            info.path = file.to_owned();
            let all = lines(answer);
            let ghost ls = texts(all@);
            assert(facts_in(info) =~= facts_of(ls.take(0)));
            for i in 0..all.len()
                invariant
                    ls == texts(all@),
                    facts_in(info) == facts_of(ls.take(i as int)),
                    info.path@ == file@,
                    info.acodec@ == Seq::<char>::empty(),
            {
                let ghost upto = ls.take(i + 1);
                assert(upto.drop_last() =~= ls.take(i as int));
                assert(upto.last() == all@[i as int]@);
                read_fact(&mut info, all[i].as_str());
            }
            assert(ls.take(ls.len() as int) =~= ls);
            if let Some(a) = audio {
                info.acodec = a.to_owned();
            }
            if info.size_bytes == 0 {
                info.size_bytes = file_len;
            }
            Some(info)
        },
    }
}

// ---------------- laws ----------------

/// A key and a value with an equals sign between them are told apart at the
/// first one, without the white space around them.
pub proof fn a_line_is_a_key_and_a_value(k: Seq<char>, v: Seq<char>)
    requires
        !k.contains('='),
    ensures
        key_value(k + seq!['='] + v) == Some((trimmed(k), trimmed(v))),
{
    reveal_strlit("=");
    let line = k + seq!['='] + v;
    let n = k.len() as int;
    assert("="@ =~= seq!['=']);
    assert(line.subrange(n, n + 1) =~= "="@);
    assert forall|j: int| 0 <= j < n implies !is_at(line, "="@, j) by {
        if is_at(line, "="@, j) {
            assert(line.subrange(j, j + 1)[0] == '=');
            assert(k[j] == '=');
        }
    }
    lemma_first_is(line, "="@, n);
    assert(line.take(n) =~= k);
    assert(line.skip(n + 1) =~= v);
}

/// A line has another key, or none.
pub open spec fn is_no_line_of(line: Seq<char>, key: Seq<char>) -> bool {
    match key_value(line) {
        Some((k, _)) => k != key,
        None => true,
    }
}

proof fn lemma_keys_differ()
    ensures
        "codec_name"@.len() == 10,
        "width"@.len() == 5,
        "height"@.len() == 6,
        "r_frame_rate"@.len() == 12,
        "duration"@.len() == 8 && "duration"@[0] == 'd',
        "size"@.len() == 4,
        "bit_rate"@.len() == 8 && "bit_rate"@[0] == 'b',
{
    reveal_strlit("codec_name");
    reveal_strlit("width");
    reveal_strlit("height");
    reveal_strlit("r_frame_rate");
    reveal_strlit("duration");
    reveal_strlit("size");
    reveal_strlit("bit_rate");
}

/// Each fact about a file is the one on the last line that has its key: the
/// codec, the width, the height, the frame rate, the length, the size and the
/// bitrate, each read off its own line.
pub proof fn a_fact_is_read_off_its_own_line(lines: Seq<Seq<char>>, i: int, v: Seq<char>)
    requires
        0 <= i < lines.len(),
    ensures
        is_last_of(lines, i, "codec_name"@, v) ==> facts_of(lines).vcodec == v,
        is_last_of(lines, i, "width"@, v) && unsigned_of(v, u32::MAX as nat) is Some ==> facts_of(
            lines,
        ).width == unsigned_of(v, u32::MAX as nat)->0,
        is_last_of(lines, i, "height"@, v) && unsigned_of(v, u32::MAX as nat) is Some ==> facts_of(
            lines,
        ).height == unsigned_of(v, u32::MAX as nat)->0,
        is_last_of(lines, i, "r_frame_rate"@, v) ==> facts_of(lines).fps == cut_first(v, "/"@),
        is_last_of(lines, i, "duration"@, v) ==> facts_of(lines).duration == Some(v),
        is_last_of(lines, i, "size"@, v) && unsigned_of(v, u64::MAX as nat) is Some ==> facts_of(
            lines,
        ).size == unsigned_of(v, u64::MAX as nat)->0,
        is_last_of(lines, i, "bit_rate"@, v) ==> facts_of(lines).bit_rate == unsigned_of(
            v,
            u64::MAX as nat,
        ),
    decreases lines.len(),
{
    lemma_keys_differ();
    let n = lines.len() - 1;
    if i < n {
        let less = lines.drop_last();
        a_fact_is_read_off_its_own_line(less, i, v);
        assert(less[i] == lines[i]);
        assert forall|key: Seq<char>| is_last_of(lines, i, key, v) implies #[trigger] is_last_of(
            less,
            i,
            key,
            v,
        ) && is_no_line_of(lines[n], key) by {
            assert forall|j: int| i < j < less.len() implies is_no_line_of(
                #[trigger] less[j],
                key,
            ) by {
                assert(less[j] == lines[j]);
            }
            assert(is_no_line_of(lines[n], key));
        }
        assert(is_last_of(lines, i, "codec_name"@, v) ==> is_last_of(less, i, "codec_name"@, v));
        assert(is_last_of(lines, i, "width"@, v) ==> is_last_of(less, i, "width"@, v));
        assert(is_last_of(lines, i, "height"@, v) ==> is_last_of(less, i, "height"@, v));
        assert(is_last_of(lines, i, "r_frame_rate"@, v) ==> is_last_of(
            less,
            i,
            "r_frame_rate"@,
            v,
        ));
        assert(is_last_of(lines, i, "duration"@, v) ==> is_last_of(less, i, "duration"@, v));
        assert(is_last_of(lines, i, "size"@, v) ==> is_last_of(less, i, "size"@, v));
        assert(is_last_of(lines, i, "bit_rate"@, v) ==> is_last_of(less, i, "bit_rate"@, v));
    }
}

/// The line gives a value to a key, and none behind it does.
pub open spec fn is_last_of(
    lines: Seq<Seq<char>>,
    i: int,
    key: Seq<char>,
    v: Seq<char>,
) -> bool {
    &&& key_value(lines[i]) == Some((key, v))
    &&& forall|j: int| i < j < lines.len() ==> is_no_line_of(#[trigger] lines[j], key)
}

/// A color property is the one on the last line that tells it; values that say
/// nothing are no values.
pub proof fn a_color_is_read_off_its_line(lines: Seq<Seq<char>>, i: int, key: Seq<char>, v: Seq<char>)
    requires
        0 <= i < lines.len(),
        key_value(lines[i]) == Some((key, v)),
        v.len() > 0,
        lowered(v) != "unknown"@ && lowered(v) != "n/a"@ && lowered(v) != "und"@ && lowered(v)
            != "reserved"@,
        forall|j: int| i < j < lines.len() ==> is_no_line_of(#[trigger] lines[j], key),
    ensures
        color_of(lines, key) == Some(v),
    decreases lines.len(),
{
    let n = lines.len() - 1;
    assert(UNKNOWN_COLORS@[0]@ == "unknown"@ && UNKNOWN_COLORS@[1]@ == "n/a"@);
    assert(UNKNOWN_COLORS@[2]@ == "und"@ && UNKNOWN_COLORS@[3]@ == "reserved"@);
    assert(UNKNOWN_COLORS@.len() == 4);
    assert(!is_unknown_color(lowered(v)));
    if i < n {
        let less = lines.drop_last();
        assert(is_no_line_of(lines[n], key));
        assert forall|j: int| i < j < less.len() implies is_no_line_of(#[trigger] less[j], key) by {
            assert(less[j] == lines[j]);
        }
        a_color_is_read_off_its_line(less, i, key, v);
    }
}

/// A property whose every line says nothing is not told.
pub proof fn an_unknown_color_is_not_told(lines: Seq<Seq<char>>, key: Seq<char>)
    requires
        forall|j: int|
            0 <= j < lines.len() ==> says_nothing(#[trigger] lines[j], key),
    ensures
        color_of(lines, key) is None,
    decreases lines.len(),
{
    assert(UNKNOWN_COLORS@[0]@ == "unknown"@ && UNKNOWN_COLORS@[1]@ == "n/a"@);
    assert(UNKNOWN_COLORS@[2]@ == "und"@ && UNKNOWN_COLORS@[3]@ == "reserved"@);
    if lines.len() > 0 {
        let less = lines.drop_last();
        assert forall|j: int| 0 <= j < less.len() implies says_nothing(#[trigger] less[j], key) by {
            assert(less[j] == lines[j]);
        }
        assert(says_nothing(lines[lines.len() - 1], key));
        an_unknown_color_is_not_told(less, key);
    }
}

/// The line has another key, or a value that says nothing.
pub open spec fn says_nothing(line: Seq<char>, key: Seq<char>) -> bool {
    match key_value(line) {
        Some((k, v)) => k != key || v.len() == 0 || lowered(v) == "unknown"@ || lowered(v) == "n/a"@
            || lowered(v) == "und"@ || lowered(v) == "reserved"@,
        None => true,
    }
}

/// Each question names what it asks for, of the first picture or the first
/// sound, and ends with the file. The facts are asked for with the keys that
/// they are read by.
pub proof fn a_question_names_what_it_asks_for(file: Seq<char>)
    ensures
        length_question(file) == seq![
            "-v"@,
            "quiet"@,
            "-show_entries"@,
            "format=duration"@,
            "-of"@,
            "default=noprint_wrappers=1:nokey=1"@,
            file,
        ],
        pix_fmt_question(file) == seq![
            "-v"@,
            "quiet"@,
            "-select_streams"@,
            "v:0"@,
            "-show_entries"@,
            "stream=pix_fmt"@,
            "-of"@,
            "default=noprint_wrappers=1:nokey=1"@,
            file,
        ],
        color_question(file) == seq![
            "-v"@,
            "quiet"@,
            "-select_streams"@,
            "v:0"@,
            "-show_entries"@,
            "stream=color_primaries,color_trc,color_space,color_range"@,
            "-of"@,
            "default=noprint_wrappers=1"@,
            file,
        ],
        media_question(file) == seq![
            "-v"@,
            "quiet"@,
            "-select_streams"@,
            "v:0"@,
            "-show_entries"@,
            "stream=codec_name,width,height,r_frame_rate"@,
            "-show_entries"@,
            "format=duration,size,bit_rate"@,
            "-of"@,
            "default=noprint_wrappers=1"@,
            file,
        ],
        audio_question(file) == seq![
            "-v"@,
            "quiet"@,
            "-select_streams"@,
            "a:0"@,
            "-show_entries"@,
            "stream=codec_name"@,
            "-of"@,
            "default=noprint_wrappers=1:nokey=1"@,
            file,
        ],
{
}

/// An answer counts where ffprobe ended well and said something.
pub proof fn an_answer_counts_where_ffprobe_ended_well(text: Seq<char>)
    ensures
        text.len() > 0 ==> answer_of(true, text) == Some(text),
        answer_of(false, text) is None,
        text.len() == 0 ==> answer_of(true, text) is None,
{
}

/// What is shown of a file is what ffprobe told of it, each fact in its place.
pub proof fn what_is_shown_was_told(
    info: MediaInfo,
    file: Seq<char>,
    f: Facts,
    audio: Seq<char>,
    len: nat,
)
    requires
        is_info(info, file, f, Some(audio), len),
    ensures
        info.path@ == file,
        info.acodec@ == audio,
        info.vcodec@ == f.vcodec,
        info.width == f.width && info.height == f.height,
        opt_text(info.duration) == f.duration,
        f.size > 0 ==> info.size_bytes == f.size,
        f.size == 0 ==> info.size_bytes == len,
        info.bit_rate is Some <==> f.bit_rate is Some,
        f.bit_rate is Some ==> info.bit_rate->0 == f.bit_rate->0,
{
}

} // verus!
