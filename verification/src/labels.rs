//! The wording of what can be chosen, and of the states of the queue.
//!
//! The rows follow the option tables, so each choice has its label here.

use crate::consts::{
    codecs_of, Choice, AUDIO_CODECS, BITRATE_MODE_OPTIONS, CATEGORY_OPTIONS, CHANNEL_OPTIONS,
    CONFLICT_OPTIONS, COOKIES_OPTIONS, DELIVERY_CODECS, EDITING_CODECS, HISTORY_FILTER_OPTIONS,
    HW_OPTIONS, QUALITY_OPTIONS, STANDARD_CODECS, THEME_OPTIONS,
};
use crate::i18n::{phrase, row_from, wording, Lang, Row};
use crate::types::QueueState;
use crate::view::state_key;
use vstd::prelude::*;

verus! {

/// The labels of every choice, with their wordings.
pub const LABELS: [Row; 61] = [
    // ---------------- quality options ----------------
    ("quality.best", "Best Quality (H.264)", "Beste Qualität (H.264)", "Meilleure qualité (H.264)"),
    (
        "quality.best_av1",
        "Best Quality (AV1 preferred)",
        "Beste Qualität (AV1 bevorzugt)",
        "Meilleure qualité (AV1 préféré)",
    ),
    ("quality.2160", "4K (2160p)", "4K (2160p)", "4K (2160p)"),
    ("quality.1440", "1440p", "1440p", "1440p"),
    ("quality.1080", "1080p", "1080p", "1080p"),
    ("quality.720", "720p", "720p", "720p"),
    ("quality.480", "480p", "480p", "480p"),
    (
        "quality.audio_wav",
        "Audio Only (WAV - Vegas/NLE)",
        "Nur Audio (WAV - Vegas/NLE)",
        "Audio seul (WAV - Vegas/NLE)",
    ),
    ("quality.audio", "Audio Only (MP3 320k)", "Nur Audio (MP3 320k)", "Audio seul (MP3 320k)"),
    (
        "quality.audio_opus",
        "Audio Only (Opus, small)",
        "Nur Audio (Opus, klein)",
        "Audio seul (Opus, léger)",
    ),
    // ---------------- conflict options ----------------
    (
        "conflictopt.ask",
        "Ask me (choose the name)",
        "Nachfragen (Namen wählen)",
        "Me demander (choisir le nom)",
    ),
    (
        "conflictopt.rename",
        "Auto-rename - Title (1).mp4",
        "Automatisch umbenennen - Titel (1).mp4",
        "Renommer automatiquement - Titre (1).mp4",
    ),
    (
        "conflictopt.overwrite",
        "Overwrite existing file",
        "Vorhandene Datei überschreiben",
        "Écraser le fichier existant",
    ),
    (
        "conflictopt.skip",
        "Skip (keep existing file)",
        "Überspringen (vorhandene Datei behalten)",
        "Ignorer (conserver le fichier existant)",
    ),
    // ---------------- cookie options ----------------
    ("cookies.none", "None (default)", "Keine (Standard)", "Aucun (par défaut)"),
    (
        "cookies.firefox",
        "Firefox (recommended on Windows)",
        "Firefox (unter Windows empfohlen)",
        "Firefox (recommandé sous Windows)",
    ),
    (
        "cookies.cookiefile",
        "Cookies File (cookies.txt)",
        "Cookies-Datei (cookies.txt)",
        "Fichier de cookies (cookies.txt)",
    ),
    (
        "cookies.chrome",
        "Chrome (often blocked/Windows)",
        "Chrome (unter Windows oft blockiert)",
        "Chrome (souvent bloqué sous Windows)",
    ),
    (
        "cookies.edge",
        "Edge (often blocked/Windows)",
        "Edge (unter Windows oft blockiert)",
        "Edge (souvent bloqué sous Windows)",
    ),
    (
        "cookies.brave",
        "Brave (often blocked/Windows)",
        "Brave (unter Windows oft blockiert)",
        "Brave (souvent bloqué sous Windows)",
    ),
    ("cookies.safari", "Safari (macOS)", "Safari (macOS)", "Safari (macOS)"),
    // ---------------- category options ----------------
    ("cat.standard", "Standard", "Standard", "Standard"),
    ("cat.editing", "Editing", "Bearbeitung", "Montage"),
    ("cat.delivery", "Delivery", "Auslieferung", "Diffusion"),
    ("cat.audio", "Audio (MP3 / WAV)", "Audio (MP3 / WAV)", "Audio (MP3 / WAV)"),
    // ---------------- hardware options ----------------
    ("hw.auto", "Auto", "Automatisch", "Automatique"),
    ("hw.nvidia", "NVIDIA NVENC", "NVIDIA NVENC", "NVIDIA NVENC"),
    ("hw.amd", "AMD AMF", "AMD AMF", "AMD AMF"),
    ("hw.intel", "Intel QSV", "Intel QSV", "Intel QSV"),
    ("hw.cpu", "CPU", "CPU", "Processeur"),
    // ---------------- bitrate options ----------------
    ("brmode.crf", "CRF / CQ", "CRF / CQ", "CRF / CQ"),
    ("brmode.custom", "Custom Bitrate", "Eigene Bitrate", "Débit personnalisé"),
    // ---------------- channel options ----------------
    ("channel.stable", "Stable (recommended)", "Stable (empfohlen)", "Stable (recommandé)"),
    (
        "channel.nightly",
        "Nightly (latest fixes)",
        "Nightly (neueste Fixes)",
        "Nightly (derniers correctifs)",
    ),
    (
        "channel.master",
        "Master (bleeding edge)",
        "Master (brandaktuell)",
        "Master (version de pointe)",
    ),
    // ---------------- codec options ----------------
    ("codec.h264", "H.264 (compatible)", "H.264 (kompatibel)", "H.264 (compatible)"),
    ("codec.h265", "H.265 / HEVC", "H.265 / HEVC", "H.265 / HEVC"),
    ("codec.av1", "AV1 (modern, small)", "AV1 (modern, klein)", "AV1 (moderne, léger)"),
    ("codec.vp9", "VP9 (Web)", "VP9 (Web)", "VP9 (Web)"),
    ("codec.copy", "Copy stream", "Stream kopieren", "Copier le flux"),
    ("codec.h264_allintra", "H.264 All-Intra", "H.264 All-Intra", "H.264 All-Intra"),
    ("codec.h264_handbrake", "H.264 Editing", "H.264 Bearbeitung", "H.264 montage"),
    ("codec.vegas_fix", "Vegas Sync Fix", "Vegas Sync Fix", "Vegas Sync Fix"),
    ("codec.prores422", "ProRes 422", "ProRes 422", "ProRes 422"),
    ("codec.prores422hq", "ProRes 422 HQ", "ProRes 422 HQ", "ProRes 422 HQ"),
    ("codec.dnxhr_hq", "DNxHR HQ", "DNxHR HQ", "DNxHR HQ"),
    ("codec.youtube", "YouTube Export (H.264)", "YouTube-Export (H.264)", "Export YouTube (H.264)"),
    ("codec.youtube_av1", "YouTube Export (AV1)", "YouTube-Export (AV1)", "Export YouTube (AV1)"),
    ("codec.social", "Instagram / TikTok", "Instagram / TikTok", "Instagram / TikTok"),
    ("codec.audio_mp3", "MP3 (320 kbps)", "MP3 (320 kbit/s)", "MP3 (320 kbit/s)"),
    ("codec.audio_wav", "WAV (PCM 16-bit)", "WAV (PCM 16 Bit)", "WAV (PCM 16 bits)"),
    // ---------------- history filter options ----------------
    ("histf.all", "All", "Alle", "Tous"),
    ("histf.download", "Downloads", "Nur Downloads", "Téléchargements"),
    ("histf.convert", "Conversions", "Konvertierungen", "Conversions seules"),
    // ---------------- theme options ----------------
    ("theme.dark", "Dark", "Dunkel", "Sombre"),
    ("theme.light", "Light", "Hell", "Clair"),
    // ---------------- queue states ----------------
    ("qs.pending", "waiting", "wartet", "en attente"),
    ("qs.running", "running", "läuft", "en cours"),
    ("qs.done", "done", "fertig", "terminé"),
    ("qs.failed", "failed", "fehlgeschlagen", "échec"),
    ("qs.skipped", "skipped", "übersprungen", "ignoré"),
];

// ---------------- laws ----------------

/// One text is longer than the other, or begins otherwise.
spec fn differs(a: Seq<char>, b: Seq<char>) -> bool {
    a.len() != b.len() || a[0] != b[0]
}

/// No wording of a row is its key.
spec fn says_more(row: Row) -> bool {
    differs(row.1@, row.0@) && differs(row.2@, row.0@) && differs(row.3@, row.0@)
}

proof fn lemma_quality_labels()
    ensures
        forall|i: int| 0 <= i < 10 ==> says_more(#[trigger] LABELS@[i]),
{
    reveal_strlit("quality.best");
    reveal_strlit("Best Quality (H.264)");
    reveal_strlit("Beste Qualität (H.264)");
    reveal_strlit("Meilleure qualité (H.264)");
    reveal_strlit("quality.best_av1");
    reveal_strlit("Best Quality (AV1 preferred)");
    reveal_strlit("Beste Qualität (AV1 bevorzugt)");
    reveal_strlit("Meilleure qualité (AV1 préféré)");
    reveal_strlit("quality.2160");
    reveal_strlit("4K (2160p)");
    reveal_strlit("quality.1440");
    reveal_strlit("1440p");
    reveal_strlit("quality.1080");
    reveal_strlit("1080p");
    reveal_strlit("quality.720");
    reveal_strlit("720p");
    reveal_strlit("quality.480");
    reveal_strlit("480p");
    reveal_strlit("quality.audio_wav");
    reveal_strlit("Audio Only (WAV - Vegas/NLE)");
    reveal_strlit("Nur Audio (WAV - Vegas/NLE)");
    reveal_strlit("Audio seul (WAV - Vegas/NLE)");
    reveal_strlit("quality.audio");
    reveal_strlit("Audio Only (MP3 320k)");
    reveal_strlit("Nur Audio (MP3 320k)");
    reveal_strlit("Audio seul (MP3 320k)");
    reveal_strlit("quality.audio_opus");
    reveal_strlit("Audio Only (Opus, small)");
    reveal_strlit("Nur Audio (Opus, klein)");
    reveal_strlit("Audio seul (Opus, léger)");
    assert(says_more(LABELS@[0]));
    assert(says_more(LABELS@[1]));
    assert(says_more(LABELS@[2]));
    assert(says_more(LABELS@[3]));
    assert(says_more(LABELS@[4]));
    assert(says_more(LABELS@[5]));
    assert(says_more(LABELS@[6]));
    assert(says_more(LABELS@[7]));
    assert(says_more(LABELS@[8]));
    assert(says_more(LABELS@[9]));
}

proof fn lemma_conflictopt_labels()
    ensures
        forall|i: int| 10 <= i < 14 ==> says_more(#[trigger] LABELS@[i]),
{
    reveal_strlit("conflictopt.ask");
    reveal_strlit("Ask me (choose the name)");
    reveal_strlit("Nachfragen (Namen wählen)");
    reveal_strlit("Me demander (choisir le nom)");
    reveal_strlit("conflictopt.rename");
    reveal_strlit("Auto-rename - Title (1).mp4");
    reveal_strlit("Automatisch umbenennen - Titel (1).mp4");
    reveal_strlit("Renommer automatiquement - Titre (1).mp4");
    reveal_strlit("conflictopt.overwrite");
    reveal_strlit("Overwrite existing file");
    reveal_strlit("Vorhandene Datei überschreiben");
    reveal_strlit("Écraser le fichier existant");
    reveal_strlit("conflictopt.skip");
    reveal_strlit("Skip (keep existing file)");
    reveal_strlit("Überspringen (vorhandene Datei behalten)");
    reveal_strlit("Ignorer (conserver le fichier existant)");
    assert(says_more(LABELS@[10]));
    assert(says_more(LABELS@[11]));
    assert(says_more(LABELS@[12]));
    assert(says_more(LABELS@[13]));
}

proof fn lemma_cookies_labels()
    ensures
        forall|i: int| 14 <= i < 21 ==> says_more(#[trigger] LABELS@[i]),
{
    reveal_strlit("cookies.none");
    reveal_strlit("None (default)");
    reveal_strlit("Keine (Standard)");
    reveal_strlit("Aucun (par défaut)");
    reveal_strlit("cookies.firefox");
    reveal_strlit("Firefox (recommended on Windows)");
    reveal_strlit("Firefox (unter Windows empfohlen)");
    reveal_strlit("Firefox (recommandé sous Windows)");
    reveal_strlit("cookies.cookiefile");
    reveal_strlit("Cookies File (cookies.txt)");
    reveal_strlit("Cookies-Datei (cookies.txt)");
    reveal_strlit("Fichier de cookies (cookies.txt)");
    reveal_strlit("cookies.chrome");
    reveal_strlit("Chrome (often blocked/Windows)");
    reveal_strlit("Chrome (unter Windows oft blockiert)");
    reveal_strlit("Chrome (souvent bloqué sous Windows)");
    reveal_strlit("cookies.edge");
    reveal_strlit("Edge (often blocked/Windows)");
    reveal_strlit("Edge (unter Windows oft blockiert)");
    reveal_strlit("Edge (souvent bloqué sous Windows)");
    reveal_strlit("cookies.brave");
    reveal_strlit("Brave (often blocked/Windows)");
    reveal_strlit("Brave (unter Windows oft blockiert)");
    reveal_strlit("Brave (souvent bloqué sous Windows)");
    reveal_strlit("cookies.safari");
    reveal_strlit("Safari (macOS)");
    assert(says_more(LABELS@[14]));
    assert(says_more(LABELS@[15]));
    assert(says_more(LABELS@[16]));
    assert(says_more(LABELS@[17]));
    assert(says_more(LABELS@[18]));
    assert(says_more(LABELS@[19]));
    assert(says_more(LABELS@[20]));
}

proof fn lemma_cat_labels()
    ensures
        forall|i: int| 21 <= i < 25 ==> says_more(#[trigger] LABELS@[i]),
{
    reveal_strlit("cat.standard");
    reveal_strlit("Standard");
    reveal_strlit("cat.editing");
    reveal_strlit("Editing");
    reveal_strlit("Bearbeitung");
    reveal_strlit("Montage");
    reveal_strlit("cat.delivery");
    reveal_strlit("Delivery");
    reveal_strlit("Auslieferung");
    reveal_strlit("Diffusion");
    reveal_strlit("cat.audio");
    reveal_strlit("Audio (MP3 / WAV)");
    assert(says_more(LABELS@[21]));
    assert(says_more(LABELS@[22]));
    assert(says_more(LABELS@[23]));
    assert(says_more(LABELS@[24]));
}

proof fn lemma_hw_labels()
    ensures
        forall|i: int| 25 <= i < 30 ==> says_more(#[trigger] LABELS@[i]),
{
    reveal_strlit("hw.auto");
    reveal_strlit("Auto");
    reveal_strlit("Automatisch");
    reveal_strlit("Automatique");
    reveal_strlit("hw.nvidia");
    reveal_strlit("NVIDIA NVENC");
    reveal_strlit("hw.amd");
    reveal_strlit("AMD AMF");
    reveal_strlit("hw.intel");
    reveal_strlit("Intel QSV");
    reveal_strlit("hw.cpu");
    reveal_strlit("CPU");
    reveal_strlit("Processeur");
    assert(says_more(LABELS@[25]));
    assert(says_more(LABELS@[26]));
    assert(says_more(LABELS@[27]));
    assert(says_more(LABELS@[28]));
    assert(says_more(LABELS@[29]));
}

proof fn lemma_brmode_labels()
    ensures
        forall|i: int| 30 <= i < 32 ==> says_more(#[trigger] LABELS@[i]),
{
    reveal_strlit("brmode.crf");
    reveal_strlit("CRF / CQ");
    reveal_strlit("brmode.custom");
    reveal_strlit("Custom Bitrate");
    reveal_strlit("Eigene Bitrate");
    reveal_strlit("Débit personnalisé");
    assert(says_more(LABELS@[30]));
    assert(says_more(LABELS@[31]));
}

proof fn lemma_channel_labels()
    ensures
        forall|i: int| 32 <= i < 35 ==> says_more(#[trigger] LABELS@[i]),
{
    reveal_strlit("channel.stable");
    reveal_strlit("Stable (recommended)");
    reveal_strlit("Stable (empfohlen)");
    reveal_strlit("Stable (recommandé)");
    reveal_strlit("channel.nightly");
    reveal_strlit("Nightly (latest fixes)");
    reveal_strlit("Nightly (neueste Fixes)");
    reveal_strlit("Nightly (derniers correctifs)");
    reveal_strlit("channel.master");
    reveal_strlit("Master (bleeding edge)");
    reveal_strlit("Master (brandaktuell)");
    reveal_strlit("Master (version de pointe)");
    assert(says_more(LABELS@[32]));
    assert(says_more(LABELS@[33]));
    assert(says_more(LABELS@[34]));
}

proof fn lemma_codec_labels()
    ensures
        forall|i: int| 35 <= i < 51 ==> says_more(#[trigger] LABELS@[i]),
{
    reveal_strlit("codec.h264");
    reveal_strlit("H.264 (compatible)");
    reveal_strlit("H.264 (kompatibel)");
    reveal_strlit("codec.h265");
    reveal_strlit("H.265 / HEVC");
    reveal_strlit("codec.av1");
    reveal_strlit("AV1 (modern, small)");
    reveal_strlit("AV1 (modern, klein)");
    reveal_strlit("AV1 (moderne, léger)");
    reveal_strlit("codec.vp9");
    reveal_strlit("VP9 (Web)");
    reveal_strlit("codec.copy");
    reveal_strlit("Copy stream");
    reveal_strlit("Stream kopieren");
    reveal_strlit("Copier le flux");
    reveal_strlit("codec.h264_allintra");
    reveal_strlit("H.264 All-Intra");
    reveal_strlit("codec.h264_handbrake");
    reveal_strlit("H.264 Editing");
    reveal_strlit("H.264 Bearbeitung");
    reveal_strlit("H.264 montage");
    reveal_strlit("codec.vegas_fix");
    reveal_strlit("Vegas Sync Fix");
    reveal_strlit("codec.prores422");
    reveal_strlit("ProRes 422");
    reveal_strlit("codec.prores422hq");
    reveal_strlit("ProRes 422 HQ");
    reveal_strlit("codec.dnxhr_hq");
    reveal_strlit("DNxHR HQ");
    reveal_strlit("codec.youtube");
    reveal_strlit("YouTube Export (H.264)");
    reveal_strlit("YouTube-Export (H.264)");
    reveal_strlit("Export YouTube (H.264)");
    reveal_strlit("codec.youtube_av1");
    reveal_strlit("YouTube Export (AV1)");
    reveal_strlit("YouTube-Export (AV1)");
    reveal_strlit("Export YouTube (AV1)");
    reveal_strlit("codec.social");
    reveal_strlit("Instagram / TikTok");
    reveal_strlit("codec.audio_mp3");
    reveal_strlit("MP3 (320 kbps)");
    reveal_strlit("MP3 (320 kbit/s)");
    reveal_strlit("codec.audio_wav");
    reveal_strlit("WAV (PCM 16-bit)");
    reveal_strlit("WAV (PCM 16 Bit)");
    reveal_strlit("WAV (PCM 16 bits)");
    assert(says_more(LABELS@[35]));
    assert(says_more(LABELS@[36]));
    assert(says_more(LABELS@[37]));
    assert(says_more(LABELS@[38]));
    assert(says_more(LABELS@[39]));
    assert(says_more(LABELS@[40]));
    assert(says_more(LABELS@[41]));
    assert(says_more(LABELS@[42]));
    assert(says_more(LABELS@[43]));
    assert(says_more(LABELS@[44]));
    assert(says_more(LABELS@[45]));
    assert(says_more(LABELS@[46]));
    assert(says_more(LABELS@[47]));
    assert(says_more(LABELS@[48]));
    assert(says_more(LABELS@[49]));
    assert(says_more(LABELS@[50]));
}

proof fn lemma_histf_labels()
    ensures
        forall|i: int| 51 <= i < 54 ==> says_more(#[trigger] LABELS@[i]),
{
    reveal_strlit("histf.all");
    reveal_strlit("All");
    reveal_strlit("Alle");
    reveal_strlit("Tous");
    reveal_strlit("histf.download");
    reveal_strlit("Downloads");
    reveal_strlit("Nur Downloads");
    reveal_strlit("Téléchargements");
    reveal_strlit("histf.convert");
    reveal_strlit("Conversions");
    reveal_strlit("Konvertierungen");
    reveal_strlit("Conversions seules");
    assert(says_more(LABELS@[51]));
    assert(says_more(LABELS@[52]));
    assert(says_more(LABELS@[53]));
}

proof fn lemma_theme_labels()
    ensures
        forall|i: int| 54 <= i < 56 ==> says_more(#[trigger] LABELS@[i]),
{
    reveal_strlit("theme.dark");
    reveal_strlit("Dark");
    reveal_strlit("Dunkel");
    reveal_strlit("Sombre");
    reveal_strlit("theme.light");
    reveal_strlit("Light");
    reveal_strlit("Hell");
    reveal_strlit("Clair");
    assert(says_more(LABELS@[54]));
    assert(says_more(LABELS@[55]));
}

proof fn lemma_qs_labels()
    ensures
        forall|i: int| 56 <= i < 61 ==> says_more(#[trigger] LABELS@[i]),
{
    reveal_strlit("qs.pending");
    reveal_strlit("waiting");
    reveal_strlit("wartet");
    reveal_strlit("en attente");
    reveal_strlit("qs.running");
    reveal_strlit("running");
    reveal_strlit("läuft");
    reveal_strlit("en cours");
    reveal_strlit("qs.done");
    reveal_strlit("done");
    reveal_strlit("fertig");
    reveal_strlit("terminé");
    reveal_strlit("qs.failed");
    reveal_strlit("failed");
    reveal_strlit("fehlgeschlagen");
    reveal_strlit("échec");
    reveal_strlit("qs.skipped");
    reveal_strlit("skipped");
    reveal_strlit("übersprungen");
    reveal_strlit("ignoré");
    assert(says_more(LABELS@[56]));
    assert(says_more(LABELS@[57]));
    assert(says_more(LABELS@[58]));
    assert(says_more(LABELS@[59]));
    assert(says_more(LABELS@[60]));
}

proof fn lemma_labels()
    ensures
        forall|i: int| 0 <= i < LABELS@.len() ==> says_more(#[trigger] LABELS@[i]),
{
    lemma_quality_labels();
    lemma_conflictopt_labels();
    lemma_cookies_labels();
    lemma_cat_labels();
    lemma_hw_labels();
    lemma_brmode_labels();
    lemma_channel_labels();
    lemma_codec_labels();
    lemma_histf_labels();
    lemma_theme_labels();
    lemma_qs_labels();
}

proof fn lemma_row_from(rows: Seq<Row>, key: Seq<char>, at: int, i: int)
    requires
        0 <= i <= at < rows.len(),
        rows[at].0@ == key,
    ensures
        row_from(rows, key, i) is Some,
        i <= row_from(rows, key, i)->0 <= at,
        rows[row_from(rows, key, i)->0].0@ == key,
    decreases at - i,
{
    if rows[i].0@ != key {
        lemma_row_from(rows, key, at, i + 1);
    }
}

/// A label is worded in every language: what is shown is never its key.
proof fn lemma_labelled(lang: Lang, at: int)
    requires
        0 <= at < LABELS@.len(),
    ensures
        phrase(lang, LABELS@[at].0@) != LABELS@[at].0@,
{
    reveal(phrase);
    lemma_labels();
    lemma_row_from(LABELS@, LABELS@[at].0@, at, 0);
}

/// The choice is offered somewhere.
pub open spec fn is_offered(c: Choice) -> bool {
    ||| QUALITY_OPTIONS@.contains(c)
    ||| CONFLICT_OPTIONS@.contains(c)
    ||| COOKIES_OPTIONS@.contains(c)
    ||| CATEGORY_OPTIONS@.contains(c)
    ||| HW_OPTIONS@.contains(c)
    ||| BITRATE_MODE_OPTIONS@.contains(c)
    ||| CHANNEL_OPTIONS@.contains(c)
    ||| HISTORY_FILTER_OPTIONS@.contains(c)
    ||| THEME_OPTIONS@.contains(c)
    ||| exists|category: Seq<char>| #[trigger] codecs_of(category).contains(c)
}

/// The labels of a table of choices stand in a row.
spec fn labelled_from(options: Seq<Choice>, at: int) -> bool {
    forall|i: int|
        0 <= i < options.len() ==> at + i < LABELS@.len() && (#[trigger] options[i]).1@ == LABELS@[at
            + i].0@
}

proof fn lemma_labels_follow_the_options()
    ensures
        labelled_from(QUALITY_OPTIONS@, 0),
        labelled_from(CONFLICT_OPTIONS@, 10),
        labelled_from(COOKIES_OPTIONS@, 14),
        labelled_from(CATEGORY_OPTIONS@, 21),
        labelled_from(HW_OPTIONS@, 25),
        labelled_from(BITRATE_MODE_OPTIONS@, 30),
        labelled_from(CHANNEL_OPTIONS@, 32),
        labelled_from(HISTORY_FILTER_OPTIONS@, 51),
        labelled_from(THEME_OPTIONS@, 54),
        labelled_from(STANDARD_CODECS@, 35),
        labelled_from(EDITING_CODECS@, 40),
        labelled_from(AUDIO_CODECS@, 49),
        labelled_from(DELIVERY_CODECS@.take(3), 46),
        DELIVERY_CODECS@[3].1@ == LABELS@[39].0@,
{
}

proof fn lemma_worded(lang: Lang, options: Seq<Choice>, at: int, c: Choice)
    requires
        labelled_from(options, at),
        0 <= at,
        options.contains(c),
    ensures
        phrase(lang, c.1@) != c.1@,
{
    let i = choose|i: int| 0 <= i < options.len() && options[i] == c;
    assert(options[i].1@ == LABELS@[at + i].0@);
    lemma_labelled(lang, at + i);
}

/// Whatever can be chosen has a wording in every language: what is shown is
/// never the key.
pub proof fn every_choice_is_worded(lang: Lang, c: Choice)
    requires
        is_offered(c),
    ensures
        phrase(lang, c.1@) != c.1@,
{
    lemma_labels_follow_the_options();
    if QUALITY_OPTIONS@.contains(c) {
        lemma_worded(lang, QUALITY_OPTIONS@, 0, c);
    }
    if CONFLICT_OPTIONS@.contains(c) {
        lemma_worded(lang, CONFLICT_OPTIONS@, 10, c);
    }
    if COOKIES_OPTIONS@.contains(c) {
        lemma_worded(lang, COOKIES_OPTIONS@, 14, c);
    }
    if CATEGORY_OPTIONS@.contains(c) {
        lemma_worded(lang, CATEGORY_OPTIONS@, 21, c);
    }
    if HW_OPTIONS@.contains(c) {
        lemma_worded(lang, HW_OPTIONS@, 25, c);
    }
    if BITRATE_MODE_OPTIONS@.contains(c) {
        lemma_worded(lang, BITRATE_MODE_OPTIONS@, 30, c);
    }
    if CHANNEL_OPTIONS@.contains(c) {
        lemma_worded(lang, CHANNEL_OPTIONS@, 32, c);
    }
    if HISTORY_FILTER_OPTIONS@.contains(c) {
        lemma_worded(lang, HISTORY_FILTER_OPTIONS@, 51, c);
    }
    if THEME_OPTIONS@.contains(c) {
        lemma_worded(lang, THEME_OPTIONS@, 54, c);
    }
    if STANDARD_CODECS@.contains(c) {
        lemma_worded(lang, STANDARD_CODECS@, 35, c);
    }
    if EDITING_CODECS@.contains(c) {
        lemma_worded(lang, EDITING_CODECS@, 40, c);
    }
    if AUDIO_CODECS@.contains(c) {
        lemma_worded(lang, AUDIO_CODECS@, 49, c);
    }
    if DELIVERY_CODECS@.contains(c) {
        let i = choose|i: int| 0 <= i < DELIVERY_CODECS@.len() && DELIVERY_CODECS@[i] == c;
        if i < 3 {
            assert(DELIVERY_CODECS@.take(3)[i] == c);
            lemma_worded(lang, DELIVERY_CODECS@.take(3), 46, c);
        } else {
            lemma_labelled(lang, 39);
        }
    }
}

/// Every state of a queue entry has a wording in every language.
pub proof fn every_queue_state_is_worded(lang: Lang, state: QueueState)
    ensures
        phrase(lang, state_key(state)) != state_key(state),
{
    let at = match state {
        QueueState::Pending => 56int,
        QueueState::Running => 57int,
        QueueState::Done => 58int,
        QueueState::Failed => 59int,
        QueueState::Skipped => 60int,
    };
    assert(LABELS@[at].0@ == state_key(state));
    lemma_labelled(lang, at);
}

/// No two states of a queue entry share a key.
pub proof fn queue_states_are_told_apart(a: QueueState, b: QueueState)
    requires
        a != b,
    ensures
        state_key(a) != state_key(b),
{
    reveal_strlit("qs.pending");
    reveal_strlit("qs.running");
    reveal_strlit("qs.done");
    reveal_strlit("qs.failed");
    reveal_strlit("qs.skipped");
    assert(state_key(a)[3] != state_key(b)[3]);
}

} // verus!
