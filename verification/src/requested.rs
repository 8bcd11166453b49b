//! What the command of a download asks for, option by option.

use crate::command::{
    asks, gives, has_value, is_option, lacks, lemma_strung_asks, lemma_strung_contains,
    lemma_strung_gives, lemma_strung_lacks, mark, says, strung,
};
use crate::consts::IMPERSONATE_AUTO_HOSTS;
use crate::download::{
    client_args, cookie_args, download_command, embed_args, height_formats, height_order,
    impersonate_args, items_args, merge_args, overwrite_args, plugin_args, quality_args, rate_args,
    selection_args, sponsor_args, subtitle_args, transfer_args, Retry,
};
use crate::text::{any_within, trimmed};
use crate::types::DownloadOpts;
use crate::util::audio_ext_of_quality;
use vstd::prelude::*;

verus! {

/// What a download command is made from; `lower` is the URL in lowercase.
pub struct Asked {
    pub program: Seq<char>,
    pub url: Seq<char>,
    pub lower: Seq<char>,
    pub tmpl: Seq<char>,
    pub quality: Seq<char>,
    pub cookies: Option<Seq<char>>,
    pub opts: DownloadOpts,
    pub force: bool,
    pub retry: Retry,
}

/// The command that is made from it.
pub open spec fn command_of(a: Asked) -> Seq<Seq<char>> {
    download_command(
        a.program,
        a.url,
        a.lower,
        a.tmpl,
        a.quality,
        a.cookies,
        a.opts,
        a.force,
        a.retry,
    )
}

/// None of the texts that a download is given is this word. (A template that is
/// named like an option would be mistaken for one.)
pub open spec fn is_no_text(a: Asked, word: Seq<char>) -> bool {
    &&& word != a.program && word != a.url && word != a.tmpl
    &&& a.cookies != Some(word)
    &&& word != a.opts.cookiefile@ && word != a.opts.plugins_dir@ && word != a.opts.subs_lang@
    &&& word != trimmed(a.opts.playlist_items@) && word != trimmed(a.opts.rate_limit@)
}

// ---------------- the words of a command ----------------

spec fn parts_of(a: Asked) -> Seq<Seq<Seq<char>>> {
    seq![
        seq![a.program],
        quality_args(a.quality),
        cookie_args(a.cookies, a.opts),
        transfer_args(a.opts, a.retry, a.tmpl),
        items_args(a.opts),
        rate_args(a.opts),
        overwrite_args(a.force, a.retry),
        client_args(a.cookies, a.opts, a.retry),
        plugin_args(a.opts),
        embed_args(a.quality, a.opts),
        subtitle_args(a.quality, a.opts),
        sponsor_args(a.opts),
        impersonate_args(a.opts, a.lower),
        seq![a.url],
    ]
}

proof fn lemma_parts(a: Asked)
    ensures
        command_of(a) == strung(parts_of(a)),
        parts_of(a).len() == 14,
{
    let p = parts_of(a);
    reveal_with_fuel(strung, 15);
    assert(strung(p.take(0)) =~= seq![]);
    assert(p.take(1).drop_last() =~= p.take(0));
    assert(p.take(1).last() == p[0]);
    assert(p.take(2).drop_last() =~= p.take(1));
    assert(p.take(2).last() == p[1]);
    assert(p.take(3).drop_last() =~= p.take(2));
    assert(p.take(3).last() == p[2]);
    assert(p.take(4).drop_last() =~= p.take(3));
    assert(p.take(4).last() == p[3]);
    assert(p.take(5).drop_last() =~= p.take(4));
    assert(p.take(5).last() == p[4]);
    assert(p.take(6).drop_last() =~= p.take(5));
    assert(p.take(6).last() == p[5]);
    assert(p.take(7).drop_last() =~= p.take(6));
    assert(p.take(7).last() == p[6]);
    assert(p.take(8).drop_last() =~= p.take(7));
    assert(p.take(8).last() == p[7]);
    assert(p.take(9).drop_last() =~= p.take(8));
    assert(p.take(9).last() == p[8]);
    assert(p.take(10).drop_last() =~= p.take(9));
    assert(p.take(10).last() == p[9]);
    assert(p.take(11).drop_last() =~= p.take(10));
    assert(p.take(11).last() == p[10]);
    assert(p.take(12).drop_last() =~= p.take(11));
    assert(p.take(12).last() == p[11]);
    assert(p.take(13).drop_last() =~= p.take(12));
    assert(p.take(13).last() == p[12]);
    assert(p.take(14).drop_last() =~= p.take(13));
    assert(p.take(14).last() == p[13]);
    assert(p.take(14) =~= p);
    assert(command_of(a) =~= strung(p.take(14)));
}

proof fn lemma_options_a()
    ensures
        mark("-x"@) == 4512012002 && is_option("-x"@),
        mark("--audio-format"@) == 10011604514 && is_option("--audio-format"@),
        mark("--postprocessor-args"@) == 11211510120 && is_option("--postprocessor-args"@),
        mark("--audio-quality"@) == 10512104515 && is_option("--audio-quality"@),
        mark("--merge-output-format"@) == 4511611621 && is_option("--merge-output-format"@),
        mark("-f"@) == 4510210202 && is_option("-f"@),
        mark("-S"@) == 4508308302 && is_option("-S"@),
        mark("--cookies"@) == 11111511109 && is_option("--cookies"@),
        mark("--cookies-from-browser"@) == 10111411422 && is_option("--cookies-from-browser"@),
        mark("--newline"@) == 10110111909 && is_option("--newline"@),
{
    reveal(mark);
    reveal_strlit("-x");
    reveal_strlit("--audio-format");
    reveal_strlit("--postprocessor-args");
    reveal_strlit("--audio-quality");
    reveal_strlit("--merge-output-format");
    reveal_strlit("-f");
    reveal_strlit("-S");
    reveal_strlit("--cookies");
    reveal_strlit("--cookies-from-browser");
    reveal_strlit("--newline");
}

proof fn lemma_options_b()
    ensures
        mark("--yes-playlist"@) == 11511610814 && is_option("--yes-playlist"@),
        mark("--no-playlist"@) == 4511610813 && is_option("--no-playlist"@),
        mark("--retries"@) == 10111511609 && is_option("--retries"@),
        mark("--fragment-retries"@) == 10911511618 && is_option("--fragment-retries"@),
        mark("--concurrent-fragments"@) == 11411511622 && is_option("--concurrent-fragments"@),
        mark("--extractor-retries"@) == 9711511119 && is_option("--extractor-retries"@),
        mark("--throttled-rate"@) == 11110110816 && is_option("--throttled-rate"@),
        mark("--sleep-requests"@) == 10111511416 && is_option("--sleep-requests"@),
        mark("--no-mtime"@) == 11110110910 && is_option("--no-mtime"@),
        mark("--encoding"@) == 11010311110 && is_option("--encoding"@),
{
    reveal(mark);
    reveal_strlit("--yes-playlist");
    reveal_strlit("--no-playlist");
    reveal_strlit("--retries");
    reveal_strlit("--fragment-retries");
    reveal_strlit("--concurrent-fragments");
    reveal_strlit("--extractor-retries");
    reveal_strlit("--throttled-rate");
    reveal_strlit("--sleep-requests");
    reveal_strlit("--no-mtime");
    reveal_strlit("--encoding");
}

proof fn lemma_options_c()
    ensures
        mark("--progress-template"@) == 11410111519 && is_option("--progress-template"@),
        mark("-o"@) == 4511111102 && is_option("-o"@),
        mark("--playlist-items"@) == 12111511516 && is_option("--playlist-items"@),
        mark("--limit-rate"@) == 10910111612 && is_option("--limit-rate"@),
        mark("--force-overwrites"@) == 10111511818 && is_option("--force-overwrites"@),
        mark("--continue"@) == 11110111610 && is_option("--continue"@),
        mark("--extractor-args"@) == 11411511616 && is_option("--extractor-args"@),
        mark("--plugin-dirs"@) == 11711510513 && is_option("--plugin-dirs"@),
        mark("--embed-thumbnail"@) == 10110811617 && is_option("--embed-thumbnail"@),
        mark("--embed-metadata"@) == 10109710916 && is_option("--embed-metadata"@),
{
    reveal(mark);
    reveal_strlit("--progress-template");
    reveal_strlit("-o");
    reveal_strlit("--playlist-items");
    reveal_strlit("--limit-rate");
    reveal_strlit("--force-overwrites");
    reveal_strlit("--continue");
    reveal_strlit("--extractor-args");
    reveal_strlit("--plugin-dirs");
    reveal_strlit("--embed-thumbnail");
    reveal_strlit("--embed-metadata");
}

proof fn lemma_options_d()
    ensures
        mark("--embed-chapters"@) == 10111509916 && is_option("--embed-chapters"@),
        mark("--write-subs"@) == 10511510112 && is_option("--write-subs"@),
        mark("--write-auto-subs"@) == 11611509717 && is_option("--write-auto-subs"@),
        mark("--sub-langs"@) == 11711504511 && is_option("--sub-langs"@),
        mark("--embed-subs"@) == 9811510012 && is_option("--embed-subs"@),
        mark("--convert-subs"@) == 11011511414 && is_option("--convert-subs"@),
        mark("--sponsorblock-remove"@) == 11110110821 && is_option("--sponsorblock-remove"@),
        mark("--sponsorblock-mark"@) == 11510709819 && is_option("--sponsorblock-mark"@),
        mark("--impersonate"@) == 11210111413 && is_option("--impersonate"@),
{
    reveal(mark);
    reveal_strlit("--embed-chapters");
    reveal_strlit("--write-subs");
    reveal_strlit("--write-auto-subs");
    reveal_strlit("--sub-langs");
    reveal_strlit("--embed-subs");
    reveal_strlit("--convert-subs");
    reveal_strlit("--sponsorblock-remove");
    reveal_strlit("--sponsorblock-mark");
    reveal_strlit("--impersonate");
}

proof fn lemma_options()
    ensures
        mark("-x"@) == 4512012002 && is_option("-x"@),
        mark("--audio-format"@) == 10011604514 && is_option("--audio-format"@),
        mark("--postprocessor-args"@) == 11211510120 && is_option("--postprocessor-args"@),
        mark("--audio-quality"@) == 10512104515 && is_option("--audio-quality"@),
        mark("--merge-output-format"@) == 4511611621 && is_option("--merge-output-format"@),
        mark("-f"@) == 4510210202 && is_option("-f"@),
        mark("-S"@) == 4508308302 && is_option("-S"@),
        mark("--cookies"@) == 11111511109 && is_option("--cookies"@),
        mark("--cookies-from-browser"@) == 10111411422 && is_option("--cookies-from-browser"@),
        mark("--newline"@) == 10110111909 && is_option("--newline"@),
        mark("--yes-playlist"@) == 11511610814 && is_option("--yes-playlist"@),
        mark("--no-playlist"@) == 4511610813 && is_option("--no-playlist"@),
        mark("--retries"@) == 10111511609 && is_option("--retries"@),
        mark("--fragment-retries"@) == 10911511618 && is_option("--fragment-retries"@),
        mark("--concurrent-fragments"@) == 11411511622 && is_option("--concurrent-fragments"@),
        mark("--extractor-retries"@) == 9711511119 && is_option("--extractor-retries"@),
        mark("--throttled-rate"@) == 11110110816 && is_option("--throttled-rate"@),
        mark("--sleep-requests"@) == 10111511416 && is_option("--sleep-requests"@),
        mark("--no-mtime"@) == 11110110910 && is_option("--no-mtime"@),
        mark("--encoding"@) == 11010311110 && is_option("--encoding"@),
        mark("--progress-template"@) == 11410111519 && is_option("--progress-template"@),
        mark("-o"@) == 4511111102 && is_option("-o"@),
        mark("--playlist-items"@) == 12111511516 && is_option("--playlist-items"@),
        mark("--limit-rate"@) == 10910111612 && is_option("--limit-rate"@),
        mark("--force-overwrites"@) == 10111511818 && is_option("--force-overwrites"@),
        mark("--continue"@) == 11110111610 && is_option("--continue"@),
        mark("--extractor-args"@) == 11411511616 && is_option("--extractor-args"@),
        mark("--plugin-dirs"@) == 11711510513 && is_option("--plugin-dirs"@),
        mark("--embed-thumbnail"@) == 10110811617 && is_option("--embed-thumbnail"@),
        mark("--embed-metadata"@) == 10109710916 && is_option("--embed-metadata"@),
        mark("--embed-chapters"@) == 10111509916 && is_option("--embed-chapters"@),
        mark("--write-subs"@) == 10511510112 && is_option("--write-subs"@),
        mark("--write-auto-subs"@) == 11611509717 && is_option("--write-auto-subs"@),
        mark("--sub-langs"@) == 11711504511 && is_option("--sub-langs"@),
        mark("--embed-subs"@) == 9811510012 && is_option("--embed-subs"@),
        mark("--convert-subs"@) == 11011511414 && is_option("--convert-subs"@),
        mark("--sponsorblock-remove"@) == 11110110821 && is_option("--sponsorblock-remove"@),
        mark("--sponsorblock-mark"@) == 11510709819 && is_option("--sponsorblock-mark"@),
        mark("--impersonate"@) == 11210111413 && is_option("--impersonate"@),
{
    lemma_options_a();
    lemma_options_b();
    lemma_options_c();
    lemma_options_d();
}

proof fn lemma_quality_values()
    ensures
        !is_option("wav"@),
        !is_option("ExtractAudio:-ar 48000 -ac 2 -c:a pcm_s16le"@),
        !is_option("mp3"@),
        !is_option("0"@),
        !is_option("ExtractAudio:-codec:a libmp3lame -b:a 320k -ar 44100 -ac 2"@),
        !is_option("opus"@),
        !is_option("mp4"@),
        !is_option("Merger:-c:a aac -b:a 192k -ar 48000 -ac 2 -movflags +faststart"@),
        !is_option("Metadata:-movflags +faststart"@),
        !is_option("EmbedThumbnail:-movflags +faststart"@),
        !is_option("bv*[vcodec^=av01]+ba/bv*[vcodec^=avc1]+ba[acodec^=mp4a]/bv*[vcodec^=avc1]+ba/bv*+ba/b"@),
        !is_option("vcodec:av01,res,acodec:m4a"@),
        !is_option("bv*[vcodec^=avc1]+ba[acodec^=mp4a]/bv*[vcodec^=avc1]+ba/bv*+ba/b"@),
        !is_option("vcodec:h264,res,acodec:m4a"@),
{
    reveal_strlit("wav");
    reveal_strlit("ExtractAudio:-ar 48000 -ac 2 -c:a pcm_s16le");
    reveal_strlit("mp3");
    reveal_strlit("0");
    reveal_strlit("ExtractAudio:-codec:a libmp3lame -b:a 320k -ar 44100 -ac 2");
    reveal_strlit("opus");
    reveal_strlit("mp4");
    reveal_strlit("Merger:-c:a aac -b:a 192k -ar 48000 -ac 2 -movflags +faststart");
    reveal_strlit("Metadata:-movflags +faststart");
    reveal_strlit("EmbedThumbnail:-movflags +faststart");
    reveal_strlit("bv*[vcodec^=av01]+ba/bv*[vcodec^=avc1]+ba[acodec^=mp4a]/bv*[vcodec^=avc1]+ba/bv*+ba/b");
    reveal_strlit("vcodec:av01,res,acodec:m4a");
    reveal_strlit("bv*[vcodec^=avc1]+ba[acodec^=mp4a]/bv*[vcodec^=avc1]+ba/bv*+ba/b");
    reveal_strlit("vcodec:h264,res,acodec:m4a");
}

proof fn lemma_transfer_values()
    ensures
        !is_option("10"@),
        !is_option("1"@),
        !is_option("8"@),
        !is_option("3"@),
        !is_option("100K"@),
        !is_option("utf-8"@),
        !is_option("download:%(progress._percent_str)s|%(progress._speed_str)s|%(progress._eta_str)s"@),
{
    reveal_strlit("10");
    reveal_strlit("1");
    reveal_strlit("8");
    reveal_strlit("3");
    reveal_strlit("100K");
    reveal_strlit("utf-8");
    reveal_strlit("download:%(progress._percent_str)s|%(progress._speed_str)s|%(progress._eta_str)s");
}

proof fn lemma_plugin_values()
    ensures
        !is_option("default"@),
{
    reveal_strlit("default");
}

proof fn lemma_subtitle_values()
    ensures
        !is_option("en,de"@),
        !is_option("srt"@),
{
    reveal_strlit("en,de");
    reveal_strlit("srt");
}

proof fn lemma_sponsor_values()
    ensures
        !is_option("sponsor,selfpromo,interaction"@),
        !is_option("all"@),
{
    reveal_strlit("sponsor,selfpromo,interaction");
    reveal_strlit("all");
}

proof fn lemma_impersonate_values()
    ensures
        !is_option("chrome"@),
{
    reveal_strlit("chrome");
}

proof fn lemma_quality_lacks(a: Asked, word: Seq<char>)
    requires
        is_option(word),
        is_no_text(a, word),
        word != "-x"@,
        word != "--audio-format"@,
        word != "--postprocessor-args"@,
        word != "--audio-quality"@,
        word != "--merge-output-format"@,
        word != "-f"@,
        word != "-S"@,
    ensures
        lacks(quality_args(a.quality), word),
{
    lemma_quality_values();
    let q = a.quality;
    assert(!is_option(height_formats(q)) && !is_option(height_order(q))) by {
        reveal_strlit("bv*[vcodec^=avc1][height<=");
        reveal_strlit("res:");
        assert(height_formats(q)[0] == 'b');
        assert(height_order(q)[0] == 'r');
    }
    let m = merge_args();
    let s = selection_args(q);
    assert(lacks(m, word));
    assert(lacks(s, word));
}

proof fn lemma_cookie_lacks(a: Asked, word: Seq<char>)
    requires
        is_option(word),
        is_no_text(a, word),
        word != "--cookies"@,
        word != "--cookies-from-browser"@,
    ensures
        lacks(cookie_args(a.cookies, a.opts), word),
{
}

proof fn lemma_transfer_lacks(a: Asked, word: Seq<char>)
    requires
        is_option(word),
        is_no_text(a, word),
        word != "--newline"@,
        word != "--yes-playlist"@,
        word != "--no-playlist"@,
        word != "--retries"@,
        word != "--fragment-retries"@,
        word != "--concurrent-fragments"@,
        word != "--extractor-retries"@,
        word != "--throttled-rate"@,
        word != "--sleep-requests"@,
        word != "--no-mtime"@,
        word != "--encoding"@,
        word != "--progress-template"@,
        word != "-o"@,
    ensures
        lacks(transfer_args(a.opts, a.retry, a.tmpl), word),
{
    lemma_transfer_values();
}

proof fn lemma_items_lacks(a: Asked, word: Seq<char>)
    requires
        is_option(word),
        is_no_text(a, word),
        word != "--playlist-items"@,
    ensures
        lacks(items_args(a.opts), word),
{
}

proof fn lemma_rate_lacks(a: Asked, word: Seq<char>)
    requires
        is_option(word),
        is_no_text(a, word),
        word != "--limit-rate"@,
    ensures
        lacks(rate_args(a.opts), word),
{
}

proof fn lemma_overwrite_lacks(a: Asked, word: Seq<char>)
    requires
        is_option(word),
        is_no_text(a, word),
        word != "--force-overwrites"@,
        word != "--continue"@,
    ensures
        lacks(overwrite_args(a.force, a.retry), word),
{
}

proof fn lemma_client_lacks(a: Asked, word: Seq<char>)
    requires
        is_option(word),
        is_no_text(a, word),
        word != "--extractor-args"@,
    ensures
        lacks(client_args(a.cookies, a.opts, a.retry), word),
{
    assert(!is_option(client_args(a.cookies, a.opts, a.retry)[1])) by {
        reveal_strlit("youtube:player_client=");
        assert(client_args(a.cookies, a.opts, a.retry)[1][0] == 'y');
    }
}

proof fn lemma_plugin_lacks(a: Asked, word: Seq<char>)
    requires
        is_option(word),
        is_no_text(a, word),
        word != "--plugin-dirs"@,
        word != "--extractor-args"@,
    ensures
        lacks(plugin_args(a.opts), word),
{
    lemma_plugin_values();
    assert(!is_option("youtubepot-bgutilhttp:base_url="@ + trimmed(a.opts.potoken_url@))) by {
        reveal_strlit("youtubepot-bgutilhttp:base_url=");
        assert(("youtubepot-bgutilhttp:base_url="@ + trimmed(a.opts.potoken_url@))[0] == 'y');
    }
}

proof fn lemma_embed_lacks(a: Asked, word: Seq<char>)
    requires
        is_option(word),
        is_no_text(a, word),
        word != "--embed-thumbnail"@,
        word != "--embed-metadata"@,
        word != "--embed-chapters"@,
    ensures
        lacks(embed_args(a.quality, a.opts), word),
{
}

proof fn lemma_subtitle_lacks(a: Asked, word: Seq<char>)
    requires
        is_option(word),
        is_no_text(a, word),
        word != "--write-subs"@,
        word != "--write-auto-subs"@,
        word != "--sub-langs"@,
        word != "--embed-subs"@,
        word != "--convert-subs"@,
    ensures
        lacks(subtitle_args(a.quality, a.opts), word),
{
    lemma_subtitle_values();
}

proof fn lemma_sponsor_lacks(a: Asked, word: Seq<char>)
    requires
        is_option(word),
        is_no_text(a, word),
        word != "--sponsorblock-remove"@,
        word != "--sponsorblock-mark"@,
    ensures
        lacks(sponsor_args(a.opts), word),
{
    lemma_sponsor_values();
}

proof fn lemma_impersonate_lacks(a: Asked, word: Seq<char>)
    requires
        is_option(word),
        is_no_text(a, word),
        word != "--impersonate"@,
    ensures
        lacks(impersonate_args(a.opts, a.lower), word),
{
    lemma_impersonate_values();
}

/// An option that is none of a part's own is not in the other parts.
spec fn is_only_in(a: Asked, k: int, word: Seq<char>) -> bool {
    forall|j: int| 0 <= j < 14 && j != k ==> lacks(#[trigger] parts_of(a)[j], word)
}

/// An option that is none of the words of the other parts stands in none of them.
proof fn lemma_only(a: Asked, k: int, word: Seq<char>)
    requires
        is_option(word),
        is_no_text(a, word),
        k != 1 ==> word != "-x"@ && word != "--audio-format"@ && word != "--postprocessor-args"@
            && word != "--audio-quality"@ && word != "--merge-output-format"@ && word != "-f"@
            && word != "-S"@,
        k != 2 ==> word != "--cookies"@ && word != "--cookies-from-browser"@,
        k != 3 ==> word != "--newline"@ && word != "--yes-playlist"@ && word != "--no-playlist"@
            && word != "--retries"@ && word != "--fragment-retries"@
            && word != "--concurrent-fragments"@ && word != "--extractor-retries"@
            && word != "--throttled-rate"@ && word != "--sleep-requests"@
            && word != "--no-mtime"@ && word != "--encoding"@ && word != "--progress-template"@
            && word != "-o"@,
        k != 4 ==> word != "--playlist-items"@,
        k != 5 ==> word != "--limit-rate"@,
        k != 6 ==> word != "--force-overwrites"@ && word != "--continue"@,
        k != 7 ==> word != "--extractor-args"@,
        k != 8 ==> word != "--plugin-dirs"@ && word != "--extractor-args"@,
        k != 9 ==> word != "--embed-thumbnail"@ && word != "--embed-metadata"@
            && word != "--embed-chapters"@,
        k != 10 ==> word != "--write-subs"@ && word != "--write-auto-subs"@
            && word != "--sub-langs"@ && word != "--embed-subs"@ && word != "--convert-subs"@,
        k != 11 ==> word != "--sponsorblock-remove"@ && word != "--sponsorblock-mark"@,
        k != 12 ==> word != "--impersonate"@,
    ensures
        is_only_in(a, k, word),
{
    let p = parts_of(a);
    if k != 1 {
        lemma_quality_lacks(a, word);
    }
    if k != 2 {
        lemma_cookie_lacks(a, word);
    }
    if k != 3 {
        lemma_transfer_lacks(a, word);
    }
    if k != 4 {
        lemma_items_lacks(a, word);
    }
    if k != 5 {
        lemma_rate_lacks(a, word);
    }
    if k != 6 {
        lemma_overwrite_lacks(a, word);
    }
    if k != 7 {
        lemma_client_lacks(a, word);
    }
    if k != 8 {
        lemma_plugin_lacks(a, word);
    }
    if k != 9 {
        lemma_embed_lacks(a, word);
    }
    if k != 10 {
        lemma_subtitle_lacks(a, word);
    }
    if k != 11 {
        lemma_sponsor_lacks(a, word);
    }
    if k != 12 {
        lemma_impersonate_lacks(a, word);
    }
    assert forall|j: int| 0 <= j < 14 && j != k implies lacks(#[trigger] p[j], word) by {
        assert(j == 0 || j == 1 || j == 2 || j == 3 || j == 4 || j == 5 || j == 6 || j == 7
            || j == 8 || j == 9 || j == 10 || j == 11 || j == 12 || j == 13);
    }
}

proof fn lemma_value(a: Asked, k: int, option: Seq<char>, value: Option<Seq<char>>)
    requires
        0 <= k < 14,
        is_only_in(a, k, option),
        has_value(parts_of(a)[k], option, value),
    ensures
        has_value(command_of(a), option, value),
{
    let p = parts_of(a);
    lemma_parts(a);
    match value {
        Some(v) => lemma_strung_gives(p, k, option, v),
        None => {
            assert forall|j: int| 0 <= j < p.len() implies lacks(#[trigger] p[j], option) by {}
            lemma_strung_lacks(p, option);
        },
    }
}

proof fn lemma_says(a: Asked, k: int, word: Seq<char>, wanted: bool)
    requires
        0 <= k < 14,
        is_only_in(a, k, word),
        says(parts_of(a)[k], word, wanted),
    ensures
        says(command_of(a), word, wanted),
{
    let p = parts_of(a);
    lemma_parts(a);
    if wanted {
        lemma_strung_contains(p, k, word);
    } else {
        assert forall|i: int| 0 <= i < p[k].len() implies #[trigger] p[k][i] != word by {
            assert(p[k].contains(p[k][i]));
        }
        assert forall|j: int| 0 <= j < p.len() implies lacks(#[trigger] p[j], word) by {}
        lemma_strung_lacks(p, word);
        let c = command_of(a);
        if c.contains(word) {
            let i = choose|i: int| 0 <= i < c.len() && c[i] == word;
            assert(c[i] != word);
        }
    }
}

proof fn lemma_asks(a: Asked, k: int, option: Seq<char>, value: Seq<char>)
    requires
        0 <= k < 14,
        asks(parts_of(a)[k], option, value),
    ensures
        asks(command_of(a), option, value),
{
    lemma_parts(a);
    lemma_strung_asks(parts_of(a), k, option, value);
}

// ---------------- laws ----------------


/// A quality that keeps the sound only asks for the format whose extension the
/// file is to have; a video asks for none, and is merged into MP4.
pub proof fn sound_is_made_in_its_own_format(a: Asked)
    requires
        is_no_text(a, "--audio-format"@),
        is_no_text(a, "-x"@),
        is_no_text(a, "--merge-output-format"@),
    ensures
        has_value(command_of(a), "--audio-format"@, audio_ext_of_quality(a.quality)),
        says(command_of(a), "-x"@, audio_ext_of_quality(a.quality) is Some),
        has_value(
            command_of(a),
            "--merge-output-format"@,
            if audio_ext_of_quality(a.quality) is Some {
                None
            } else {
                Some("mp4"@)
            },
        ),
{
    let p = quality_args(a.quality);
    let e = audio_ext_of_quality(a.quality);
    lemma_options();
    lemma_quality_values();
    lemma_only(a, 1, "--audio-format"@);
    lemma_only(a, 1, "-x"@);
    lemma_only(a, 1, "--merge-output-format"@);
    assert(parts_of(a)[1] == p);
    reveal_strlit("audio");
    reveal_strlit("audio_wav");
    reveal_strlit("audio_opus");
    assert("audio"@.len() == 5 && "audio_wav"@.len() == 9 && "audio_opus"@.len() == 10);
    if e is Some {
        assert(p[0] == "-x"@ && p[1] == "--audio-format"@ && p[2] == e->0);
        assert(gives(p, "--audio-format"@, e->0));
        assert(lacks(p, "--merge-output-format"@));
    } else {
        lemma_video_words(a.quality);
        assert(p == merge_args() + selection_args(a.quality));
        assert(p[0] == "--merge-output-format"@ && p[1] == "mp4"@);
        assert(lacks(p, "--audio-format"@));
        assert(lacks(p, "-x"@));
        assert(gives(p, "--merge-output-format"@, "mp4"@));
    }
    lemma_value(a, 1, "--audio-format"@, e);
    lemma_says(a, 1, "-x"@, e is Some);
    lemma_value(
        a,
        1,
        "--merge-output-format"@,
        if e is Some {
            None
        } else {
            Some("mp4"@)
        },
    );
}

/// The words of a video's options.
proof fn lemma_video_words(q: Seq<char>)
    ensures
        forall|i: int|
            0 <= i < merge_args().len() ==> (#[trigger] merge_args()[i]) == "--merge-output-format"@
                && i == 0 || merge_args()[i] == "--postprocessor-args"@ || !is_option(
                merge_args()[i],
            ),
        selection_args(q).len() == 4,
        selection_args(q)[0] == "-f"@,
        selection_args(q)[2] == "-S"@,
        !is_option(selection_args(q)[1]),
        !is_option(selection_args(q)[3]),
{
    lemma_quality_values();
    reveal_strlit("bv*[vcodec^=avc1][height<=");
    reveal_strlit("res:");
    assert(height_formats(q)[0] == 'b');
    assert(height_order(q)[0] == 'r');
}

/// A text begins with another.
pub open spec fn begins_with(s: Seq<char>, head: Seq<char>) -> bool {
    s.len() >= head.len() && s.take(head.len() as int) == head
}

/// A video picks its formats by its quality: H.264 first for the best quality,
/// AV1 first where that is preferred, and no higher than a height that is given.
pub proof fn formats_follow_the_quality(a: Asked) -> (picked: (Seq<char>, Seq<char>))
    requires
        is_no_text(a, "-f"@),
        is_no_text(a, "-S"@),
        audio_ext_of_quality(a.quality) is None,
    ensures
        gives(command_of(a), "-f"@, picked.0),
        gives(command_of(a), "-S"@, picked.1),
        a.quality == "best_av1"@ ==> begins_with(picked.0, "bv*[vcodec^=av01]+ba/"@)
            && begins_with(picked.1, "vcodec:av01,res"@),
        a.quality == "best"@ ==> begins_with(picked.0, "bv*[vcodec^=avc1]+ba"@) && begins_with(
            picked.1,
            "vcodec:h264,res"@,
        ),
        a.quality != "best_av1"@ && a.quality != "best"@ ==> begins_with(
            picked.0,
            "bv*[vcodec^=avc1][height<="@ + a.quality + "]+ba"@,
        ) && begins_with(picked.1, "res:"@ + a.quality + ",vcodec:h264"@),
{
    let q = a.quality;
    let p = quality_args(q);
    let m = merge_args();
    let s = selection_args(q);
    lemma_options();
    lemma_video_words(q);
    lemma_only(a, 1, "-f"@);
    lemma_only(a, 1, "-S"@);
    assert(parts_of(a)[1] == p);
    assert(p == m + s);
    assert(m.len() == 8);
    assert(p[8] == "-f"@ && p[9] == s[1] && p[10] == "-S"@ && p[11] == s[3]);
    assert forall|i: int| 0 <= i < p.len() && #[trigger] p[i] == "-f"@ implies i == 8 by {
        if i < 8 {
            assert(p[i] == m[i]);
        } else {
            assert(p[i] == s[i - 8]);
        }
    }
    assert forall|i: int| 0 <= i < p.len() && #[trigger] p[i] == "-S"@ implies i == 10 by {
        if i < 8 {
            assert(p[i] == m[i]);
        } else {
            assert(p[i] == s[i - 8]);
        }
    }
    lemma_value(a, 1, "-f"@, Some(s[1]));
    lemma_value(a, 1, "-S"@, Some(s[3]));
    lemma_formats_begin(q);
    (s[1], s[3])
}

proof fn lemma_formats_begin(q: Seq<char>)
    ensures
        ({
            let s = selection_args(q);
            &&& q == "best_av1"@ ==> begins_with(s[1], "bv*[vcodec^=av01]+ba/"@) && begins_with(
                s[3],
                "vcodec:av01,res"@,
            )
            &&& q == "best"@ ==> begins_with(s[1], "bv*[vcodec^=avc1]+ba"@) && begins_with(
                s[3],
                "vcodec:h264,res"@,
            )
            &&& q != "best_av1"@ && q != "best"@ ==> begins_with(
                s[1],
                "bv*[vcodec^=avc1][height<="@ + q + "]+ba"@,
            ) && begins_with(s[3], "res:"@ + q + ",vcodec:h264"@)
        }),
{
    let s = selection_args(q);
    reveal_strlit("best");
    reveal_strlit("best_av1");
    assert("best"@.len() == 4 && "best_av1"@.len() == 8);
    if q == "best_av1"@ {
        reveal_strlit(
            "bv*[vcodec^=av01]+ba/bv*[vcodec^=avc1]+ba[acodec^=mp4a]/bv*[vcodec^=avc1]+ba/bv*+ba/b",
        );
        reveal_strlit("vcodec:av01,res,acodec:m4a");
        reveal_strlit("bv*[vcodec^=av01]+ba/");
        reveal_strlit("vcodec:av01,res");
        assert(s[1].take(21) =~= "bv*[vcodec^=av01]+ba/"@);
        assert(s[3].take(15) =~= "vcodec:av01,res"@);
    } else if q == "best"@ {
        reveal_strlit("bv*[vcodec^=avc1]+ba[acodec^=mp4a]/bv*[vcodec^=avc1]+ba/bv*+ba/b");
        reveal_strlit("vcodec:h264,res,acodec:m4a");
        reveal_strlit("bv*[vcodec^=avc1]+ba");
        reveal_strlit("vcodec:h264,res");
        assert(s[1].take(20) =~= "bv*[vcodec^=avc1]+ba"@);
        assert(s[3].take(15) =~= "vcodec:h264,res"@);
    } else {
        reveal_strlit("]+ba[acodec^=mp4a]/bv*[vcodec^=avc1][height<=");
        reveal_strlit("]+ba");
        reveal_strlit(",vcodec:h264,acodec:m4a");
        reveal_strlit(",vcodec:h264");
        let f = "bv*[vcodec^=avc1][height<="@ + q + "]+ba"@;
        let o = "res:"@ + q + ",vcodec:h264"@;
        assert(s[1].take(f.len() as int) =~= f);
        assert(s[3].take(o.len() as int) =~= o);
    }
}

/// Cookies come from a file where one is given, else from the browser that was
/// chosen, else from nowhere.
pub proof fn cookies_come_from_one_source(a: Asked)
    requires
        is_no_text(a, "--cookies"@),
        is_no_text(a, "--cookies-from-browser"@),
    ensures
        has_value(
            command_of(a),
            "--cookies"@,
            if a.opts.cookiefile@.len() > 0 {
                Some(a.opts.cookiefile@)
            } else {
                None
            },
        ),
        has_value(
            command_of(a),
            "--cookies-from-browser"@,
            if a.opts.cookiefile@.len() > 0 {
                None
            } else {
                a.cookies
            },
        ),
{
    let p = cookie_args(a.cookies, a.opts);
    let file: Option<Seq<char>> = if a.opts.cookiefile@.len() > 0 {
        Some(a.opts.cookiefile@)
    } else {
        None
    };
    let browser: Option<Seq<char>> = if a.opts.cookiefile@.len() > 0 {
        None
    } else {
        a.cookies
    };
    lemma_options();
    lemma_only(a, 2, "--cookies"@);
    lemma_only(a, 2, "--cookies-from-browser"@);
    assert(parts_of(a)[2] == p);
    if p.len() > 0 {
        assert(p.len() == 2);
        assert(p[0] == "--cookies"@ || p[0] == "--cookies-from-browser"@);
    }
    assert(has_value(p, "--cookies"@, file));
    assert(has_value(p, "--cookies-from-browser"@, browser));
    lemma_value(a, 2, "--cookies"@, file);
    lemma_value(a, 2, "--cookies-from-browser"@, browser);
}

proof fn lemma_transfer_value(a: Asked, i: int, option: Seq<char>)
    requires
        is_option(option),
        is_no_text(a, option),
        0 <= i < 20,
        transfer_args(a.opts, a.retry, a.tmpl)[i] == option,
        forall|j: int|
            0 <= j < 21
                && j != i ==> #[trigger] transfer_args(a.opts, a.retry, a.tmpl)[j] != option,
        is_only_in(a, 3, option),
    ensures
        gives(command_of(a), option, transfer_args(a.opts, a.retry, a.tmpl)[i + 1]),
{
    let p = transfer_args(a.opts, a.retry, a.tmpl);
    assert(parts_of(a)[3] == p);
    assert(p.len() == 21);
    assert(gives(p, option, p[i + 1]));
    lemma_value(a, 3, option, Some(p[i + 1]));
}

/// A download writes where it is told, and nowhere else.
pub proof fn a_download_writes_where_it_is_told(a: Asked)
    requires
        is_no_text(a, "-o"@),
    ensures
        gives(command_of(a), "-o"@, a.tmpl),
{
    lemma_options();
    lemma_transfer_values();
    lemma_only(a, 3, "-o"@);
    lemma_transfer_value(a, 19, "-o"@);
}

/// A run tries a failed request, a fragment and a page again so many times, and
/// fetches the fragments eight at a time unless it is a retry.
pub proof fn a_run_is_patient(a: Asked)
    requires
        is_no_text(a, "--retries"@),
        is_no_text(a, "--fragment-retries"@),
        is_no_text(a, "--extractor-retries"@),
        is_no_text(a, "--concurrent-fragments"@),
        is_no_text(a, "--throttled-rate"@),
        is_no_text(a, "--sleep-requests"@),
        is_no_text(a, "--encoding"@),
    ensures
        gives(command_of(a), "--retries"@, "10"@),
        gives(command_of(a), "--fragment-retries"@, "10"@),
        gives(command_of(a), "--extractor-retries"@, "3"@),
        gives(
            command_of(a),
            "--concurrent-fragments"@,
            if a.retry.low_concurrency {
                "1"@
            } else {
                "8"@
            },
        ),
        gives(command_of(a), "--throttled-rate"@, "100K"@),
        gives(command_of(a), "--sleep-requests"@, "1"@),
        gives(command_of(a), "--encoding"@, "utf-8"@),
{
    lemma_options();
    lemma_transfer_values();
    lemma_only(a, 3, "--retries"@);
    lemma_transfer_value(a, 2, "--retries"@);
    lemma_only(a, 3, "--fragment-retries"@);
    lemma_transfer_value(a, 4, "--fragment-retries"@);
    lemma_only(a, 3, "--concurrent-fragments"@);
    lemma_transfer_value(a, 6, "--concurrent-fragments"@);
    lemma_only(a, 3, "--extractor-retries"@);
    lemma_transfer_value(a, 8, "--extractor-retries"@);
    lemma_only(a, 3, "--throttled-rate"@);
    lemma_transfer_value(a, 10, "--throttled-rate"@);
    lemma_only(a, 3, "--sleep-requests"@);
    lemma_transfer_value(a, 12, "--sleep-requests"@);
    lemma_only(a, 3, "--encoding"@);
    lemma_transfer_value(a, 15, "--encoding"@);
}

/// Progress is asked for line by line in the form that is read again: the mark
/// of a progress line, then the percentage, the speed and the remaining time
/// with a bar between two of them. The time of the file is left alone.
pub proof fn progress_is_asked_for_as_it_is_read(a: Asked)
    requires
        is_no_text(a, "--progress-template"@),
        is_no_text(a, "--newline"@),
        is_no_text(a, "--no-mtime"@),
    ensures
        gives(
            command_of(a),
            "--progress-template"@,
            "download:"@ + "%(progress._percent_str)s"@ + "|"@ + "%(progress._speed_str)s"@ + "|"@
                + "%(progress._eta_str)s"@,
        ),
        says(command_of(a), "--newline"@, true),
        says(command_of(a), "--no-mtime"@, true),
{
    let p = transfer_args(a.opts, a.retry, a.tmpl);
    lemma_options();
    lemma_transfer_values();
    lemma_only(a, 3, "--progress-template"@);
    lemma_transfer_value(a, 17, "--progress-template"@);
    lemma_only(a, 3, "--newline"@);
    lemma_only(a, 3, "--no-mtime"@);
    assert(parts_of(a)[3] == p);
    assert(p[0] == "--newline"@ && p[14] == "--no-mtime"@);
    lemma_says(a, 3, "--newline"@, true);
    lemma_says(a, 3, "--no-mtime"@, true);
    reveal_strlit("download:%(progress._percent_str)s|%(progress._speed_str)s|%(progress._eta_str)s");
    reveal_strlit("download:");
    reveal_strlit("%(progress._percent_str)s");
    reveal_strlit("|");
    reveal_strlit("%(progress._speed_str)s");
    reveal_strlit("%(progress._eta_str)s");
    assert(p[18] =~= "download:"@ + "%(progress._percent_str)s"@ + "|"@
        + "%(progress._speed_str)s"@ + "|"@ + "%(progress._eta_str)s"@);
}

/// A playlist is asked for as a whole, or in the range that was given; anything
/// else is asked for alone, and without a range.
pub proof fn a_playlist_is_asked_for_as_a_whole(a: Asked)
    requires
        is_no_text(a, "--yes-playlist"@),
        is_no_text(a, "--no-playlist"@),
        is_no_text(a, "--playlist-items"@),
    ensures
        says(command_of(a), "--yes-playlist"@, a.opts.playlist),
        says(command_of(a), "--no-playlist"@, !a.opts.playlist),
        has_value(
            command_of(a),
            "--playlist-items"@,
            if a.opts.playlist && trimmed(a.opts.playlist_items@).len() > 0 {
                Some(trimmed(a.opts.playlist_items@))
            } else {
                None
            },
        ),
{
    let p = transfer_args(a.opts, a.retry, a.tmpl);
    let i = items_args(a.opts);
    let range: Option<Seq<char>> = if a.opts.playlist && trimmed(a.opts.playlist_items@).len() > 0 {
        Some(trimmed(a.opts.playlist_items@))
    } else {
        None
    };
    lemma_options();
    lemma_transfer_values();
    lemma_only(a, 3, "--yes-playlist"@);
    lemma_only(a, 3, "--no-playlist"@);
    lemma_only(a, 4, "--playlist-items"@);
    assert(parts_of(a)[3] == p && parts_of(a)[4] == i);
    assert(p[1] == "--yes-playlist"@ || p[1] == "--no-playlist"@);
    lemma_says(a, 3, "--yes-playlist"@, a.opts.playlist);
    lemma_says(a, 3, "--no-playlist"@, !a.opts.playlist);
    if range is Some {
        assert(i[0] == "--playlist-items"@ && i[1] == range->0);
    }
    assert(has_value(i, "--playlist-items"@, range));
    lemma_value(a, 4, "--playlist-items"@, range);
}

/// A speed limit is passed on exactly when one was typed, without the white
/// space around it.
pub proof fn a_speed_limit_is_passed_on(a: Asked)
    requires
        is_no_text(a, "--limit-rate"@),
    ensures
        has_value(
            command_of(a),
            "--limit-rate"@,
            if trimmed(a.opts.rate_limit@).len() > 0 {
                Some(trimmed(a.opts.rate_limit@))
            } else {
                None
            },
        ),
{
    let p = rate_args(a.opts);
    let rate: Option<Seq<char>> = if trimmed(a.opts.rate_limit@).len() > 0 {
        Some(trimmed(a.opts.rate_limit@))
    } else {
        None
    };
    lemma_options();
    lemma_only(a, 5, "--limit-rate"@);
    assert(parts_of(a)[5] == p);
    if rate is Some {
        assert(p[0] == "--limit-rate"@ && p[1] == rate->0);
    }
    assert(has_value(p, "--limit-rate"@, rate));
    lemma_value(a, 5, "--limit-rate"@, rate);
}

/// A file is overwritten only where that was asked for, and then a retry
/// resumes.
pub proof fn a_file_is_overwritten_on_request(a: Asked)
    requires
        is_no_text(a, "--force-overwrites"@),
        is_no_text(a, "--continue"@),
    ensures
        says(command_of(a), "--force-overwrites"@, a.force),
        says(command_of(a), "--continue"@, a.force && a.retry.resume),
{
    let p = overwrite_args(a.force, a.retry);
    lemma_options();
    lemma_only(a, 6, "--force-overwrites"@);
    lemma_only(a, 6, "--continue"@);
    assert(parts_of(a)[6] == p);
    if a.force {
        assert(p[0] == "--force-overwrites"@);
        if a.retry.resume {
            assert(p[1] == "--continue"@);
        }
    }
    lemma_says(a, 6, "--force-overwrites"@, a.force);
    lemma_says(a, 6, "--continue"@, a.force && a.retry.resume);
}

/// The YouTube clients are those of the attempt: after a rejection only ones
/// that are no web clients; with a PO token those that take it; with cookies
/// more web clients than without.
pub proof fn the_clients_are_asked_for(a: Asked)
    ensures
        asks(
            command_of(a),
            "--extractor-args"@,
            "youtube:player_client="@ + (if a.retry.safe_clients {
                "default,android_vr"@
            } else if a.opts.potoken {
                "mweb,tv_simply,web_safari,web_embedded,web_creator"@
            } else if a.cookies is Some || a.opts.cookiefile@.len() > 0 {
                "default,web_safari,web_creator,web_embedded"@
            } else {
                "default,web_safari"@
            }),
        ),
        trimmed(a.opts.potoken_url@).len() > 0 ==> asks(
            command_of(a),
            "--extractor-args"@,
            "youtubepot-bgutilhttp:base_url="@ + trimmed(a.opts.potoken_url@),
        ),
        a.opts.plugins_dir@.len() > 0 ==> asks(
            command_of(a),
            "--plugin-dirs"@,
            a.opts.plugins_dir@,
        ) && asks(command_of(a), "--plugin-dirs"@, "default"@),
{
    let c = client_args(a.cookies, a.opts, a.retry);
    let p = plugin_args(a.opts);
    assert(parts_of(a)[7] == c && parts_of(a)[8] == p);
    assert(c[0] == "--extractor-args"@);
    lemma_asks(a, 7, "--extractor-args"@, c[1]);
    if a.opts.plugins_dir@.len() > 0 {
        assert(p[0] == "--plugin-dirs"@ && p[1] == "default"@);
        assert(p[2] == "--plugin-dirs"@ && p[3] == a.opts.plugins_dir@);
        lemma_asks(a, 8, "--plugin-dirs"@, "default"@);
        lemma_asks(a, 8, "--plugin-dirs"@, a.opts.plugins_dir@);
    }
    if trimmed(a.opts.potoken_url@).len() > 0 {
        let n = p.len() - 2;
        assert(p[n] == "--extractor-args"@);
        lemma_asks(a, 8, "--extractor-args"@, p[n + 1]);
    }
}

/// Cover art, tags and chapters are embedded where that is asked for; a WAV
/// file, which has no place for it, goes without cover art.
pub proof fn what_is_embedded_was_asked_for(a: Asked)
    requires
        is_no_text(a, "--embed-thumbnail"@),
        is_no_text(a, "--embed-metadata"@),
        is_no_text(a, "--embed-chapters"@),
    ensures
        says(command_of(a), "--embed-thumbnail"@, a.opts.embed && a.quality != "audio_wav"@),
        says(command_of(a), "--embed-metadata"@, a.opts.embed),
        says(command_of(a), "--embed-chapters"@, a.opts.embed),
{
    let p = embed_args(a.quality, a.opts);
    lemma_options();
    lemma_only(a, 9, "--embed-thumbnail"@);
    lemma_only(a, 9, "--embed-metadata"@);
    lemma_only(a, 9, "--embed-chapters"@);
    assert(parts_of(a)[9] == p);
    if a.opts.embed {
        let n = p.len() - 2;
        assert(p[n] == "--embed-metadata"@ && p[n + 1] == "--embed-chapters"@);
        if a.quality != "audio_wav"@ {
            assert(p[0] == "--embed-thumbnail"@);
        }
    }
    lemma_says(a, 9, "--embed-thumbnail"@, a.opts.embed && a.quality != "audio_wav"@);
    lemma_says(a, 9, "--embed-metadata"@, a.opts.embed);
    lemma_says(a, 9, "--embed-chapters"@, a.opts.embed);
}

/// Subtitles are fetched and embedded for a video where they are asked for, in
/// the languages that were typed, English and German where none were; sound
/// alone has none.
pub proof fn subtitles_are_for_videos(a: Asked)
    requires
        is_no_text(a, "--write-subs"@),
        is_no_text(a, "--write-auto-subs"@),
        is_no_text(a, "--embed-subs"@),
        is_no_text(a, "--sub-langs"@),
        is_no_text(a, "--convert-subs"@),
    ensures
        ({
            let wanted = a.opts.subs && audio_ext_of_quality(a.quality) is None;
            &&& says(command_of(a), "--write-subs"@, wanted)
            &&& says(command_of(a), "--write-auto-subs"@, wanted)
            &&& says(command_of(a), "--embed-subs"@, wanted)
            &&& has_value(
                command_of(a),
                "--sub-langs"@,
                if !wanted {
                    None
                } else if a.opts.subs_lang@.len() > 0 {
                    Some(a.opts.subs_lang@)
                } else {
                    Some("en,de"@)
                },
            )
            &&& has_value(
                command_of(a),
                "--convert-subs"@,
                if wanted {
                    Some("srt"@)
                } else {
                    None
                },
            )
        }),
{
    let p = subtitle_args(a.quality, a.opts);
    let wanted = a.opts.subs && audio_ext_of_quality(a.quality) is None;
    let langs: Option<Seq<char>> = if !wanted {
        None
    } else if a.opts.subs_lang@.len() > 0 {
        Some(a.opts.subs_lang@)
    } else {
        Some("en,de"@)
    };
    let format: Option<Seq<char>> = if wanted {
        Some("srt"@)
    } else {
        None
    };
    lemma_options();
    lemma_subtitle_values();
    lemma_only(a, 10, "--write-subs"@);
    lemma_only(a, 10, "--write-auto-subs"@);
    lemma_only(a, 10, "--embed-subs"@);
    lemma_only(a, 10, "--sub-langs"@);
    lemma_only(a, 10, "--convert-subs"@);
    assert(parts_of(a)[10] == p);
    if wanted {
        assert(p.len() == 7);
        assert(p[0] == "--write-subs"@ && p[1] == "--write-auto-subs"@ && p[2] == "--sub-langs"@);
        assert(p[3] == langs->0 && p[4] == "--embed-subs"@ && p[5] == "--convert-subs"@);
        assert(p[6] == "srt"@);
    } else {
        assert(p.len() == 0);
    }
    assert(has_value(p, "--sub-langs"@, langs));
    assert(has_value(p, "--convert-subs"@, format));
    lemma_says(a, 10, "--write-subs"@, wanted);
    lemma_says(a, 10, "--write-auto-subs"@, wanted);
    lemma_says(a, 10, "--embed-subs"@, wanted);
    lemma_value(a, 10, "--sub-langs"@, langs);
    lemma_value(a, 10, "--convert-subs"@, format);
}

/// Sponsored sections are removed where that is asked for, and only then.
pub proof fn sponsors_are_removed_on_request(a: Asked)
    requires
        is_no_text(a, "--sponsorblock-remove"@),
        is_no_text(a, "--sponsorblock-mark"@),
    ensures
        has_value(
            command_of(a),
            "--sponsorblock-remove"@,
            if a.opts.sponsorblock {
                Some("sponsor,selfpromo,interaction"@)
            } else {
                None
            },
        ),
        has_value(
            command_of(a),
            "--sponsorblock-mark"@,
            if a.opts.sponsorblock {
                Some("all"@)
            } else {
                None
            },
        ),
{
    let p = sponsor_args(a.opts);
    let cut: Option<Seq<char>> = if a.opts.sponsorblock {
        Some("sponsor,selfpromo,interaction"@)
    } else {
        None
    };
    let marked: Option<Seq<char>> = if a.opts.sponsorblock {
        Some("all"@)
    } else {
        None
    };
    lemma_options();
    lemma_sponsor_values();
    lemma_only(a, 11, "--sponsorblock-remove"@);
    lemma_only(a, 11, "--sponsorblock-mark"@);
    assert(parts_of(a)[11] == p);
    if a.opts.sponsorblock {
        assert(p[0] == "--sponsorblock-remove"@ && p[1] == cut->0);
        assert(p[2] == "--sponsorblock-mark"@ && p[3] == "all"@);
    }
    assert(has_value(p, "--sponsorblock-remove"@, cut));
    assert(has_value(p, "--sponsorblock-mark"@, marked));
    lemma_value(a, 11, "--sponsorblock-remove"@, cut);
    lemma_value(a, 11, "--sponsorblock-mark"@, marked);
}

/// A browser is impersonated where that is asked for, and by itself for the
/// hosts that call for it where yt-dlp can.
pub proof fn a_browser_is_impersonated_where_called_for(a: Asked)
    requires
        is_no_text(a, "--impersonate"@),
    ensures
        has_value(
            command_of(a),
            "--impersonate"@,
            if a.opts.impersonate || (a.opts.impersonate_available && any_within(
                a.lower,
                IMPERSONATE_AUTO_HOSTS@,
            )) {
                Some("chrome"@)
            } else {
                None
            },
        ),
{
    let p = impersonate_args(a.opts, a.lower);
    let who: Option<Seq<char>> = if a.opts.impersonate || (a.opts.impersonate_available
        && any_within(a.lower, IMPERSONATE_AUTO_HOSTS@)) {
        Some("chrome"@)
    } else {
        None
    };
    lemma_options();
    lemma_impersonate_values();
    lemma_only(a, 12, "--impersonate"@);
    assert(parts_of(a)[12] == p);
    if who is Some {
        assert(p[0] == "--impersonate"@ && p[1] == "chrome"@);
    }
    assert(has_value(p, "--impersonate"@, who));
    lemma_value(a, 12, "--impersonate"@, who);
}

} // verus!
