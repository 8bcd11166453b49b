//! The wording of the user interface in English, German and French.
//!
//! Every text that a user sees stands here behind a stable key. `t` gives the
//! wording in the active language; `tf` fills its `{}` placeholders in order.
//! An unknown key falls back to the key itself, so a typo is visible in the
//! user interface instead of silently rendering an empty label.

use crate::labels::LABELS;
use crate::text::{
    first_at, is_at, joined, lemma_first_at, lemma_first_is, lemma_joined_pieces,
    lemma_pieces_nonempty, opt_str, pieces, same, split, strs, texts, within,
};
use vstd::prelude::*;

verus! {

#[derive(Clone, Copy, PartialEq, Eq, Structural, Debug)]
pub enum Lang {
    En,
    De,
    Fr,
}

/// Selectable languages, in the order the picker shows them.
pub const LANGS: [Lang; 3] = [Lang::En, Lang::De, Lang::Fr];

impl Default for Lang {
    fn default() -> (r: Self)
        ensures
            r == Lang::En,
    {
        Lang::En
    }
}

/// The code that a language is stored under.
pub open spec fn lang_code(lang: Lang) -> Seq<char> {
    match lang {
        Lang::En => "en"@,
        Lang::De => "de"@,
        Lang::Fr => "fr"@,
    }
}

/// The name of a language in that language.
pub open spec fn own_name(lang: Lang) -> Seq<char> {
    match lang {
        Lang::En => "English"@,
        Lang::De => "Deutsch"@,
        Lang::Fr => "Français"@,
    }
}

/// The language that a stored code stands for: English unless it is one of the
/// others.
pub open spec fn lang_of(code: Seq<char>) -> Lang {
    if code == "de"@ {
        Lang::De
    } else if code == "fr"@ {
        Lang::Fr
    } else {
        Lang::En
    }
}

impl Lang {
    pub fn code(self) -> (r: &'static str)
        ensures
            r@ == lang_code(self),
    {
        match self {
            Lang::En => "en",
            Lang::De => "de",
            Lang::Fr => "fr",
        }
    }

    /// Anything unrecognised falls back to English.
    pub fn from_code(code: &str) -> (r: Lang)
        ensures
            r == lang_of(code@),
    {
        if same(code, "de") {
            Lang::De
        } else if same(code, "fr") {
            Lang::Fr
        } else {
            Lang::En
        }
    }

    /// Endonym - a language is easiest to find written in itself.
    pub fn label(self) -> (r: &'static str)
        ensures
            r@ == own_name(self),
    {
        match self {
            Lang::En => "English",
            Lang::De => "Deutsch",
            Lang::Fr => "Français",
        }
    }
}

/// A key and its wording in English, German and French.
pub type Row = (&'static str, &'static str, &'static str, &'static str);

/// Every key with its wordings, but for those that label a choice.
pub const TABLE: [Row; 279] = [
    // ---------------- shared ----------------
    ("common.language", "Language", "Sprache", "Langue"),
    ("common.on", "on", "an", "activé"),
    ("common.off", "off", "aus", "désactivé"),
    ("common.choose", "Choose", "Auswählen", "Parcourir"),
    ("common.clear", "Clear", "Leeren", "Effacer"),
    ("common.stop", "⏹ Stop", "⏹ Stopp", "⏹ Arrêter"),
    ("common.live_log", "Live Log", "Live-Log", "Journal en direct"),
    ("common.error", "Error: {}", "Fehler: {}", "Erreur : {}"),
    ("common.copy", "📋 Copy", "📋 Kopieren", "📋 Copier"),
    ("common.save", "💾 Save", "💾 Speichern", "💾 Enregistrer"),
    ("common.remove", "Remove", "Entfernen", "Retirer"),
    ("common.open_file", "Open file", "Datei öffnen", "Ouvrir le fichier"),
    ("common.open_folder", "Open folder", "Ordner öffnen", "Ouvrir le dossier"),
    ("common.log_empty", "The log is empty.", "Das Log ist leer.", "Le journal est vide."),
    ("common.log_copied", "Log copied", "Log kopiert", "Journal copié"),
    ("common.log_saved", "Log saved as {}", "Log gespeichert als {}", "Journal enregistré sous {}"),
    (
        "common.log_save_failed",
        "Could not save the log: {}",
        "Log konnte nicht gespeichert werden: {}",
        "Impossible d'enregistrer le journal : {}",
    ),
    (
        "common.shortcuts",
        "Ctrl+1..5 switch tabs, Ctrl+Enter starts, Esc stops",
        "Strg+1..5 wechselt den Reiter, Strg+Eingabe startet, Esc stoppt",
        "Ctrl+1..5 change d'onglet, Ctrl+Entrée démarre, Échap arrête",
    ),
    // ---------------- navigation ----------------
    ("nav.download", "Download", "Download", "Téléchargement"),
    ("nav.convert", "Convert", "Konvertieren", "Convertir"),
    ("nav.setup", "Setup", "Einrichtung", "Installation"),
    ("nav.info", "Info", "Info", "Infos"),
    ("nav.history", "History", "Verlauf", "Historique"),
    // ---------------- footer ----------------
    ("footer.hw", "HW: {}", "HW: {}", "Matériel : {}"),
    ("footer.impersonate", "Impersonate: {}", "Impersonate: {}", "Impersonate : {}"),
    ("footer.js", "JS: {}", "JS: {}", "JS : {}"),
    // ---------------- download tab ----------------
    (
        "dl.subtitle",
        "Videos & audio from YouTube, Instagram, TikTok, X and 1700+ sites",
        "Videos & Audio von YouTube, Instagram, TikTok, X und über 1700 weiteren Seiten",
        "Vidéos et audio depuis YouTube, Instagram, TikTok, X et plus de 1700 sites",
    ),
    ("dl.source_quality", "Source & Quality", "Quelle & Qualität", "Source et qualité"),
    ("dl.url", "URL:", "URL:", "URL :"),
    (
        "dl.url_hint",
        "YouTube, TikTok, X/Twitter, Instagram ...",
        "YouTube, TikTok, X/Twitter, Instagram ...",
        "YouTube, TikTok, X/Twitter, Instagram ...",
    ),
    ("dl.paste", "📋 Paste", "📋 Einfügen", "📋 Coller"),
    ("dl.quality", "Quality", "Qualität", "Qualité"),
    ("dl.cookies", "Cookies", "Cookies", "Cookies"),
    ("dl.conflict", "If file exists", "Wenn die Datei existiert", "Si le fichier existe"),
    ("dl.cookiefile", "cookies.txt:", "cookies.txt:", "cookies.txt :"),
    ("dl.advanced", "Advanced options", "Erweiterte Optionen", "Options avancées"),
    (
        "dl.impersonate",
        "Impersonate (Anti-Bot)",
        "Impersonate (Anti-Bot)",
        "Impersonate (anti-bot)",
    ),
    (
        "dl.sponsorblock",
        "SponsorBlock (Remove Sponsors)",
        "SponsorBlock (Sponsoren entfernen)",
        "SponsorBlock (supprimer les sponsors)",
    ),
    (
        "dl.embed",
        "Embed Thumbnail/Metadata/Chapters",
        "Thumbnail/Metadaten/Kapitel einbetten",
        "Intégrer miniature/métadonnées/chapitres",
    ),
    ("dl.subs", "Download Subtitles", "Untertitel herunterladen", "Télécharger les sous-titres"),
    ("dl.subs_langs", "Languages:", "Sprachen:", "Langues :"),
    (
        "dl.potoken",
        "PO Token / mweb (for 18+ Videos)",
        "PO Token / mweb (für 18+ Videos)",
        "Jeton PO / mweb (vidéos 18+)",
    ),
    ("dl.provider_url", "Provider URL:", "Provider-URL:", "URL du fournisseur :"),
    (
        "dl.provider_hint",
        "empty = http://127.0.0.1:4416",
        "leer = http://127.0.0.1:4416",
        "vide = http://127.0.0.1:4416",
    ),
    ("dl.save_location", "Save Location", "Speicherort", "Emplacement d'enregistrement"),
    ("dl.choose_folder", "📁 Choose folder", "📁 Ordner wählen", "📁 Choisir un dossier"),
    (
        "dl.choose_folder_hint",
        "Pick the folder downloads are saved to",
        "Ordner wählen, in den Downloads gespeichert werden",
        "Choisir le dossier où enregistrer les téléchargements",
    ),
    (
        "dl.choose_folder_title",
        "Choose save folder",
        "Zielordner wählen",
        "Choisir le dossier de destination",
    ),
    ("dl.open_folder", "↗ Open", "↗ Öffnen", "↗ Ouvrir"),
    (
        "dl.open_folder_hint",
        "Open this folder in the file manager",
        "Diesen Ordner im Datei-Explorer öffnen",
        "Ouvrir ce dossier dans l'explorateur de fichiers",
    ),
    ("dl.start", "⬇ Start Download", "⬇ Download starten", "⬇ Démarrer le téléchargement"),
    ("dl.add_queue", "➕ Add to queue", "➕ Zur Warteschlange", "➕ Ajouter à la file"),
    (
        "dl.add_queue_hint",
        "Line this link up behind the others",
        "Diesen Link hinter den anderen einreihen",
        "Placer ce lien à la suite des autres",
    ),
    (
        "dl.playlist",
        "Download the whole playlist",
        "Ganze Playlist herunterladen",
        "Télécharger toute la playlist",
    ),
    (
        "dl.playlist_hint",
        "Every entry goes into a folder named after the list",
        "Jeder Eintrag landet in einem Ordner mit dem Namen der Liste",
        "Chaque élément va dans un dossier au nom de la liste",
    ),
    ("dl.playlist_items", "Items:", "Einträge:", "Éléments :"),
    (
        "dl.playlist_items_hint",
        "e.g. 1-10 or 3,5,7",
        "z. B. 1-10 oder 3,5,7",
        "p. ex. 1-10 ou 3,5,7",
    ),
    ("dl.rate_limit", "Speed limit:", "Tempolimit:", "Limite de débit :"),
    ("dl.rate_limit_hint", "e.g. 2M or 500K", "z. B. 2M oder 500K", "p. ex. 2M ou 500K"),
    (
        "dl.start_queue",
        "⬇ Start {} downloads",
        "⬇ {} Downloads starten",
        "⬇ Démarrer {} téléchargements",
    ),
    ("dl.queue_title", "Queue", "Warteschlange", "File d'attente"),
    ("dl.queue_running", "{} of {} started", "{} von {} gestartet", "{} sur {} démarrés"),
    ("dl.queue_clear", "Clear all", "Alle entfernen", "Tout effacer"),
    ("dl.queue_clear_done", "Clear finished", "Fertige entfernen", "Effacer les terminés"),
    (
        "dl.queue_added",
        "Added to the queue - {} waiting",
        "Zur Warteschlange hinzugefügt - {} wartend",
        "Ajouté à la file - {} en attente",
    ),
    (
        "dl.queue_dupe",
        "This link is already waiting in the queue.",
        "Dieser Link wartet bereits in der Warteschlange.",
        "Ce lien attend déjà dans la file.",
    ),
    (
        "dl.queue_done",
        "Queue finished - {} done, {} failed",
        "Warteschlange fertig - {} erledigt, {} fehlgeschlagen",
        "File terminée - {} réussis, {} échoués",
    ),
    // ---------------- statuses ----------------
    ("status.ready", "Ready", "Bereit", "Prêt"),
    ("status.downloading", "Downloading ...", "Lade herunter ...", "Téléchargement ..."),
    ("status.converting", "Converting ...", "Konvertiere ...", "Conversion ..."),
    ("status.cancelled", "Cancelled", "Abgebrochen", "Annulé"),
    (
        "log.ready_downloads",
        "  Ready for downloads ...",
        "  Bereit für Downloads ...",
        "  Prêt pour les téléchargements ...",
    ),
    (
        "log.ready_conversion",
        "  Ready for conversion ...",
        "  Bereit zum Konvertieren ...",
        "  Prêt pour la conversion ...",
    ),
    // ---------------- toasts ----------------
    (
        "toast.need_url",
        "Please enter a URL first.",
        "Bitte zuerst eine URL eingeben.",
        "Veuillez d'abord saisir une URL.",
    ),
    (
        "toast.bad_url",
        "URL must start with http:// or https://.",
        "Die URL muss mit http:// oder https:// beginnen.",
        "L'URL doit commencer par http:// ou https://.",
    ),
    (
        "toast.need_folder",
        "Please choose a save folder.",
        "Bitte einen Zielordner wählen.",
        "Veuillez choisir un dossier de destination.",
    ),
    (
        "toast.no_ytdlp",
        "yt-dlp not available - please run Setup.",
        "yt-dlp nicht verfügbar - bitte die Einrichtung ausführen.",
        "yt-dlp indisponible - veuillez lancer l'installation.",
    ),
    (
        "toast.no_cookiefile",
        "Cookies file (cookies.txt) is missing or not found.",
        "Cookies-Datei (cookies.txt) fehlt oder wurde nicht gefunden.",
        "Fichier de cookies (cookies.txt) manquant ou introuvable.",
    ),
    (
        "toast.mkdir_failed",
        "Could not create folder: {}",
        "Ordner konnte nicht erstellt werden: {}",
        "Impossible de créer le dossier : {}",
    ),
    (
        "toast.need_io",
        "Please choose input and output files.",
        "Bitte Eingabe- und Ausgabedatei wählen.",
        "Veuillez choisir les fichiers d'entrée et de sortie.",
    ),
    (
        "toast.no_input",
        "Input file does not exist.",
        "Die Eingabedatei existiert nicht.",
        "Le fichier d'entrée n'existe pas.",
    ),
    (
        "toast.same_io",
        "Input and output must not be identical.",
        "Eingabe und Ausgabe dürfen nicht identisch sein.",
        "L'entrée et la sortie ne doivent pas être identiques.",
    ),
    (
        "toast.no_ffmpeg",
        "FFmpeg not available - please run Setup.",
        "FFmpeg nicht verfügbar - bitte die Einrichtung ausführen.",
        "FFmpeg indisponible - veuillez lancer l'installation.",
    ),
    (
        "toast.mkdir_out_failed",
        "Could not create target folder: {}",
        "Zielordner konnte nicht erstellt werden: {}",
        "Impossible de créer le dossier de destination : {}",
    ),
    (
        "toast.bad_rate",
        "The speed limit must look like 2M or 500K.",
        "Das Tempolimit muss wie 2M oder 500K aussehen.",
        "La limite de débit doit ressembler à 2M ou 500K.",
    ),
    // ---------------- convert tab ----------------
    (
        "cv.subtitle",
        "FFmpeg conversion with live progress",
        "FFmpeg-Konvertierung mit Live-Fortschritt",
        "Conversion FFmpeg avec progression en direct",
    ),
    ("cv.input", "Input:", "Eingabe:", "Entrée :"),
    ("cv.browse", "📂 Browse…", "📂 Durchsuchen…", "📂 Parcourir…"),
    ("cv.output", "Output:", "Ausgabe:", "Sortie :"),
    ("cv.save_as", "💾 Save as…", "💾 Speichern unter…", "💾 Enregistrer sous…"),
    ("cv.filter_media", "Video/Audio", "Video/Audio", "Vidéo/Audio"),
    ("cv.filter_all", "All files", "Alle Dateien", "Tous les fichiers"),
    ("cv.category", "Category", "Kategorie", "Catégorie"),
    ("cv.codec", "Codec", "Codec", "Codec"),
    ("cv.hardware", "Hardware", "Hardware", "Matériel"),
    ("cv.bitrate_mode", "Bitrate Mode", "Bitraten-Modus", "Mode de débit"),
    ("cv.crf", "CRF", "CRF", "CRF"),
    ("cv.mbps", "Mbps", "Mbit/s", "Mbit/s"),
    (
        "cv.preserve_color",
        "Preserve Color Metadata (BT.709 / BT.2020)",
        "Farb-Metadaten erhalten (BT.709 / BT.2020)",
        "Conserver les métadonnées de couleur (BT.709 / BT.2020)",
    ),
    ("cv.start", "▶ Convert", "▶ Konvertieren", "▶ Convertir"),
    ("cv.clear_log", "Clear Log", "Log leeren", "Effacer le journal"),
    (
        "cv.hint_audio_only",
        "Note: audio only - the video track is discarded.",
        "Hinweis: nur Audio - die Videospur wird verworfen.",
        "Remarque : audio seul - la piste vidéo est ignorée.",
    ),
    (
        "cv.hint_cpu",
        "Note: this codec runs most stably on CPU.",
        "Hinweis: Dieser Codec läuft auf der CPU am stabilsten.",
        "Remarque : ce codec est le plus stable sur le processeur.",
    ),
    (
        "cv.hint_copy",
        "Note: stream copy - no re-encoding.",
        "Hinweis: Stream-Kopie - keine Neukodierung.",
        "Remarque : copie du flux - pas de réencodage.",
    ),
    (
        "cv.hint_av1",
        "Note: AV1 - very efficient, but slow on CPU.",
        "Hinweis: AV1 - sehr effizient, aber langsam auf der CPU.",
        "Remarque : AV1 - très efficace, mais lent sur le processeur.",
    ),
    ("cv.trim", "Trim", "Zuschneiden", "Découper"),
    ("cv.trim_start", "Start:", "Anfang:", "Début :"),
    ("cv.trim_end", "End:", "Ende:", "Fin :"),
    (
        "cv.trim_hint",
        "1:30 or plain seconds, both counted from the start of the source",
        "1:30 oder einfach Sekunden, beides ab dem Anfang der Quelle",
        "1:30 ou des secondes, comptées depuis le début de la source",
    ),
    ("cv.trim_end_of_file", "end of file", "Dateiende", "fin du fichier"),
    ("cv.trim_active", "Keeps {}", "Behält {}", "Conserve {}"),
    (
        "cv.trim_bad",
        "The trim times make no sense - the end must come after the start.",
        "Die Schnittzeiten ergeben keinen Sinn - das Ende muss nach dem Anfang liegen.",
        "Les temps de découpe sont incohérents - la fin doit suivre le début.",
    ),
    ("cv.info", "Source", "Quelle", "Fichier source"),
    ("cv.info_probing", "Reading the file ...", "Lese die Datei ...", "Lecture du fichier ..."),
    (
        "cv.info_none",
        "Nothing could be read from this file.",
        "Aus dieser Datei konnte nichts gelesen werden.",
        "Rien n'a pu être lu dans ce fichier.",
    ),
    ("cv.info_length", "Length", "Länge", "Durée"),
    ("cv.info_video", "Video", "Bild", "Vidéo"),
    ("cv.info_audio", "Audio", "Ton", "Son"),
    ("cv.info_size", "Size", "Größe", "Taille"),
    (
        "cv.estimate",
        "Estimated size: about {}",
        "Geschätzte Größe: etwa {}",
        "Taille estimée : environ {}",
    ),
    (
        "cv.open_output",
        "📂 Open output folder",
        "📂 Ausgabeordner öffnen",
        "📂 Ouvrir le dossier de sortie",
    ),
    // ---------------- setup tab ----------------
    (
        "setup.subtitle",
        "Manage yt-dlp and FFmpeg",
        "yt-dlp und FFmpeg verwalten",
        "Gérer yt-dlp et FFmpeg",
    ),
    ("setup.deno", "Deno (JS Runtime)", "Deno (JS-Laufzeit)", "Deno (moteur JS)"),
    ("setup.not_installed", "Not installed", "Nicht installiert", "Non installé"),
    ("setup.bin_path", "Local Bin Path:", "Lokaler Bin-Pfad:", "Chemin bin local :"),
    ("setup.install", "⬇ Install Binaries", "⬇ Binaries installieren", "⬇ Installer les binaires"),
    ("setup.channel", "Channel:", "Kanal:", "Canal :"),
    ("setup.update_ytdlp", "⟳ Update yt-dlp", "⟳ yt-dlp aktualisieren", "⟳ Mettre à jour yt-dlp"),
    ("setup.install_deno", "Install Deno", "Deno installieren", "Installer Deno"),
    (
        "setup.busy_hint",
        "An installation is already running - please wait.",
        "Eine Installation läuft bereits - bitte warten.",
        "Une installation est déjà en cours - veuillez patienter.",
    ),
    (
        "setup.installing",
        "Installing binaries ...",
        "Installiere Binaries ...",
        "Installation des binaires ...",
    ),
    ("setup.dl_ytdlp", "Downloading yt-dlp", "Lade yt-dlp herunter", "Téléchargement de yt-dlp"),
    (
        "setup.dl_ffmpeg",
        "Downloading FFmpeg ...",
        "Lade FFmpeg herunter ...",
        "Téléchargement de FFmpeg ...",
    ),
    ("setup.dl_named", "Downloading {}", "Lade {} herunter", "Téléchargement de {}"),
    (
        "setup.install_done",
        "Installation completed",
        "Installation abgeschlossen",
        "Installation terminée",
    ),
    (
        "setup.install_error",
        "Installation error: {}",
        "Installationsfehler: {}",
        "Erreur d'installation : {}",
    ),
    (
        "setup.install_ok_toast",
        "Binaries installed successfully",
        "Binaries erfolgreich installiert",
        "Binaires installés avec succès",
    ),
    ("setup.updating_ytdlp", "Updating yt-dlp", "Aktualisiere yt-dlp", "Mise à jour de yt-dlp"),
    (
        "setup.updating_ytdlp_status",
        "Updating yt-dlp ...",
        "Aktualisiere yt-dlp ...",
        "Mise à jour de yt-dlp ...",
    ),
    (
        "setup.switch_channel",
        "Switching yt-dlp to the '{}' channel ...",
        "Wechsle yt-dlp auf den Kanal „{}“ ...",
        "Passage de yt-dlp au canal « {} » ...",
    ),
    ("setup.ytdlp_updated", "yt-dlp updated", "yt-dlp aktualisiert", "yt-dlp mis à jour"),
    (
        "setup.ytdlp_updated_toast",
        "yt-dlp updated successfully",
        "yt-dlp erfolgreich aktualisiert",
        "yt-dlp mis à jour avec succès",
    ),
    ("setup.update_error", "Update error: {}", "Update-Fehler: {}", "Erreur de mise à jour : {}"),
    ("setup.dl_deno", "Downloading Deno", "Lade Deno herunter", "Téléchargement de Deno"),
    (
        "setup.dl_deno_status",
        "Downloading Deno ...",
        "Lade Deno herunter ...",
        "Téléchargement de Deno ...",
    ),
    ("setup.deno_installed", "Deno installed", "Deno installiert", "Deno installé"),
    (
        "setup.deno_installed_toast",
        "Deno (JS runtime) installed",
        "Deno (JS-Laufzeit) installiert",
        "Deno (moteur JS) installé",
    ),
    (
        "setup.deno_error",
        "Deno installation error: {}",
        "Deno-Installationsfehler: {}",
        "Erreur d'installation de Deno : {}",
    ),
    ("setup.progress_pct", "{} ... {}% ({} MiB)", "{} ... {}% ({} MiB)", "{} ... {} % ({} Mio)"),
    ("setup.progress_plain", "{} ... {} MiB", "{} ... {} MiB", "{} ... {} Mio"),
    ("setup.recheck", "⟳ Re-check", "⟳ Neu prüfen", "⟳ Revérifier"),
    ("setup.appearance", "Appearance", "Darstellung", "Apparence"),
    // ---------------- info tab ----------------
    (
        "info.subtitle",
        "Version {}  ·  Rust / egui port",
        "Version {}  ·  Rust-/egui-Portierung",
        "Version {}  ·  portage Rust / egui",
    ),
    ("info.f_download", "Download", "Download", "Téléchargement"),
    (
        "info.f_download_d",
        "YouTube, TikTok, Instagram, X/Twitter and 1700+ more sites",
        "YouTube, TikTok, Instagram, X/Twitter und über 1700 weitere Seiten",
        "YouTube, TikTok, Instagram, X/Twitter et plus de 1700 autres sites",
    ),
    ("info.f_antibot", "Anti-Bot", "Anti-Bot", "Anti-bot"),
    (
        "info.f_antibot_d",
        "Optional --impersonate (curl_cffi) against 403/Cloudflare",
        "Optionales --impersonate (curl_cffi) gegen 403/Cloudflare",
        "Option --impersonate (curl_cffi) contre les erreurs 403/Cloudflare",
    ),
    ("info.f_vegas", "Vegas Pro", "Vegas Pro", "Vegas Pro"),
    (
        "info.f_vegas_d",
        "H.264/AAC preferred - directly compatible with Vegas Pro 23+",
        "H.264/AAC bevorzugt - direkt kompatibel mit Vegas Pro 23+",
        "H.264/AAC privilégiés - directement compatibles avec Vegas Pro 23+",
    ),
    ("info.f_audio", "Audio", "Audio", "Audio"),
    (
        "info.f_audio_d",
        "MP3 (CBR 320k), WAV/PCM or Opus",
        "MP3 (CBR 320k), WAV/PCM oder Opus",
        "MP3 (CBR 320k), WAV/PCM ou Opus",
    ),
    ("info.f_quality", "Quality", "Qualität", "Qualité"),
    (
        "info.f_quality_d",
        "4K, 1440p, 1080p, 720p, 480p - with AV1 preference",
        "4K, 1440p, 1080p, 720p, 480p - mit AV1-Präferenz",
        "4K, 1440p, 1080p, 720p, 480p - avec préférence AV1",
    ),
    ("info.f_sponsorblock", "SponsorBlock", "SponsorBlock", "SponsorBlock"),
    (
        "info.f_sponsorblock_d",
        "Automatically remove or mark sponsors",
        "Sponsoren automatisch entfernen oder markieren",
        "Supprimer ou marquer automatiquement les sponsors",
    ),
    ("info.f_convert", "Convert", "Konvertieren", "Conversion"),
    (
        "info.f_convert_d",
        "H.264, H.265, AV1 (SVT-AV1), ProRes 422, DNxHR, Vegas Sync Fix, MP3/WAV",
        "H.264, H.265, AV1 (SVT-AV1), ProRes 422, DNxHR, Vegas Sync Fix, MP3/WAV",
        "H.264, H.265, AV1 (SVT-AV1), ProRes 422, DNxHR, Vegas Sync Fix, MP3/WAV",
    ),
    ("info.f_hardware", "Hardware", "Hardware", "Matériel"),
    (
        "info.f_hardware_d",
        "NVIDIA NVENC, AMD AMF, Intel QSV, Auto-Detect",
        "NVIDIA NVENC, AMD AMF, Intel QSV, Auto-Erkennung",
        "NVIDIA NVENC, AMD AMF, Intel QSV, détection automatique",
    ),
    ("info.f_hdr", "HDR/Color", "HDR/Farbe", "HDR/Couleur"),
    (
        "info.f_hdr_d",
        "Color metadata is preserved during conversion",
        "Farb-Metadaten bleiben bei der Konvertierung erhalten",
        "Les métadonnées de couleur sont conservées lors de la conversion",
    ),
    ("info.f_integrity", "Integrity", "Integrität", "Intégrité"),
    (
        "info.f_integrity_d",
        "yt-dlp binaries verified against signed SHA2-256SUMS",
        "yt-dlp-Binaries werden gegen signierte SHA2-256SUMS geprüft",
        "Binaires yt-dlp vérifiés via les SHA2-256SUMS signés",
    ),
    ("info.f_queue", "Queue", "Warteschlange", "File d'attente"),
    (
        "info.f_queue_d",
        "Links are worked off one after another",
        "Links werden nacheinander abgearbeitet",
        "Les liens sont traités l'un après l'autre",
    ),
    ("info.f_playlist", "Playlists", "Playlists", "Playlists"),
    (
        "info.f_playlist_d",
        "Whole playlists or a range of them, in a folder of their own",
        "Ganze Playlists oder ein Bereich daraus, in einem eigenen Ordner",
        "Des playlists entières ou une plage, dans leur propre dossier",
    ),
    ("info.f_trim", "Trim", "Zuschneiden", "Découpe"),
    (
        "info.f_trim_d",
        "Convert only a section of the source",
        "Nur einen Abschnitt der Quelle konvertieren",
        "Ne convertir qu'une partie de la source",
    ),
    ("info.f_history", "History", "Verlauf", "Historique"),
    (
        "info.f_history_d",
        "Every finished job with its file and its link",
        "Jeder fertige Auftrag mit Datei und Link",
        "Chaque tâche terminée avec son fichier et son lien",
    ),
    // ---------------- conflict modal ----------------
    ("conflict.title", "File already exists", "Datei existiert bereits", "Le fichier existe déjà"),
    (
        "conflict.body",
        "\"{}\" is already in the target folder.",
        "„{}“ liegt bereits im Zielordner.",
        "« {} » se trouve déjà dans le dossier de destination.",
    ),
    (
        "conflict.hint",
        "Save under a different name, overwrite, or skip.",
        "Unter anderem Namen speichern, überschreiben oder überspringen.",
        "Enregistrer sous un autre nom, écraser ou ignorer.",
    ),
    ("conflict.save_as_label", "Save as:", "Speichern als:", "Enregistrer sous :"),
    ("conflict.save_as", "Save as", "Speichern als", "Enregistrer sous"),
    ("conflict.overwrite", "Overwrite", "Überschreiben", "Écraser"),
    ("conflict.skip", "Skip", "Überspringen", "Ignorer"),
    (
        "conflict.need_name",
        "Please enter a file name.",
        "Bitte einen Dateinamen eingeben.",
        "Veuillez saisir un nom de fichier.",
    ),
    (
        "conflict.name_taken",
        "A file with this name already exists.",
        "Eine Datei mit diesem Namen existiert bereits.",
        "Un fichier portant ce nom existe déjà.",
    ),
    // ---------------- cookies options ----------------
    // ---------------- bitrate mode options ----------------
    // ---------------- download worker ----------------
    (
        "dlw.started",
        "=== Download started ===",
        "=== Download gestartet ===",
        "=== Téléchargement démarré ===",
    ),
    (
        "dlw.warn_nojs",
        "Warning: no JS runtime (Deno) found - YouTube often only offers 360p without one. Setup tab -> 'Install Deno'.",
        "Warnung: Keine JS-Laufzeit (Deno) gefunden - ohne sie bietet YouTube oft nur 360p an. Reiter Einrichtung -> „Deno installieren“.",
        "Avertissement : aucun moteur JS (Deno) détecté - sans lui, YouTube ne propose souvent que du 360p. Onglet Installation -> « Installer Deno ».",
    ),
    (
        "dlw.note_nocookies",
        "Note: without cookies or a PO token, YouTube may withhold some HD formats.",
        "Hinweis: Ohne Cookies oder PO Token hält YouTube manche HD-Formate zurück.",
        "Remarque : sans cookies ni jeton PO, YouTube peut retenir certains formats HD.",
    ),
    (
        "dlw.warn_ig_old",
        "Warning: yt-dlp {} is too old for Instagram (empty media response bug, #17074). Setup tab -> 'Update yt-dlp'.",
        "Warnung: yt-dlp {} ist zu alt für Instagram (Bug „empty media response“, #17074). Reiter Einrichtung -> „yt-dlp aktualisieren“.",
        "Avertissement : yt-dlp {} est trop ancien pour Instagram (bogue « empty media response », #17074). Onglet Installation -> « Mettre à jour yt-dlp ».",
    ),
    (
        "dlw.note_ig_cookies",
        "Note: Instagram often requires login cookies (cookies.txt is the most reliable).",
        "Hinweis: Instagram verlangt oft Login-Cookies (cookies.txt ist am zuverlässigsten).",
        "Remarque : Instagram exige souvent des cookies de connexion (cookies.txt est le plus fiable).",
    ),
    (
        "dlw.warn_ig_impersonate",
        "Warning: browser impersonation is unavailable - Instagram usually blocks downloads without it.",
        "Warnung: Browser-Impersonation ist nicht verfügbar - Instagram blockiert Downloads ohne sie meist.",
        "Avertissement : l'impersonation du navigateur est indisponible - sans elle, Instagram bloque généralement les téléchargements.",
    ),
    (
        "dlw.checking_target",
        "Checking target file ...",
        "Prüfe die Zieldatei ...",
        "Vérification du fichier cible ...",
    ),
    (
        "dlw.no_target_name",
        "Note: could not determine the target file name in advance - if a file with the same name exists, yt-dlp will skip the download.",
        "Hinweis: Der Zieldateiname konnte nicht im Voraus ermittelt werden - existiert bereits eine Datei gleichen Namens, überspringt yt-dlp den Download.",
        "Remarque : impossible de déterminer le nom du fichier cible à l'avance - si un fichier du même nom existe, yt-dlp ignorera le téléchargement.",
    ),
    ("dlw.target_file", "Target file: {}", "Zieldatei: {}", "Fichier cible : {}"),
    (
        "dlw.exists_saving_as",
        "\"{}\" already exists - saving as \"{}\".",
        "„{}“ existiert bereits - speichere als „{}“.",
        "« {} » existe déjà - enregistrement sous « {} ».",
    ),
    (
        "dlw.waiting_decision",
        "Waiting for your decision ...",
        "Warte auf deine Entscheidung ...",
        "En attente de votre décision ...",
    ),
    (
        "dlw.overwriting",
        "Overwriting the existing \"{}\".",
        "Überschreibe die vorhandene Datei „{}“.",
        "Écrasement du fichier existant « {} ».",
    ),
    ("dlw.saving_as", "Saving as \"{}\".", "Speichere als „{}“.", "Enregistrement sous « {} »."),
    (
        "dlw.cancelled_log",
        "\n=== Download cancelled ===",
        "\n=== Download abgebrochen ===",
        "\n=== Téléchargement annulé ===",
    ),
    (
        "dlw.skipped_status",
        "Skipped - file already exists",
        "Übersprungen - Datei existiert bereits",
        "Ignoré - le fichier existe déjà",
    ),
    (
        "dlw.skipped_log",
        "\n=== Skipped - the existing file was kept ===",
        "\n=== Übersprungen - die vorhandene Datei wurde behalten ===",
        "\n=== Ignoré - le fichier existant a été conservé ===",
    ),
    (
        "dlw.skipped_toast",
        "Skipped - the existing file was kept",
        "Übersprungen - die vorhandene Datei wurde behalten",
        "Ignoré - le fichier existant a été conservé",
    ),
    (
        "dlw.nothing_status",
        "Nothing downloaded - file already exists",
        "Nichts heruntergeladen - Datei existiert bereits",
        "Rien téléchargé - le fichier existe déjà",
    ),
    (
        "dlw.nothing_log",
        "\n=== Nothing downloaded - a file with this name already exists ===",
        "\n=== Nichts heruntergeladen - eine Datei mit diesem Namen existiert bereits ===",
        "\n=== Rien téléchargé - un fichier portant ce nom existe déjà ===",
    ),
    (
        "dlw.nothing_tip",
        "Tip: set 'If file exists' to 'Ask me', 'Auto-rename' or 'Overwrite' to download it anyway.",
        "Tipp: Stelle „Wenn die Datei existiert“ auf „Nachfragen“, „Automatisch umbenennen“ oder „Überschreiben“, um trotzdem herunterzuladen.",
        "Astuce : réglez « Si le fichier existe » sur « Me demander », « Renommer automatiquement » ou « Écraser » pour le télécharger quand même.",
    ),
    ("dlw.completed", "Download completed", "Download abgeschlossen", "Téléchargement terminé"),
    (
        "dlw.success_log",
        "\n=== Download successful ===",
        "\n=== Download erfolgreich ===",
        "\n=== Téléchargement réussi ===",
    ),
    ("dlw.success_toast", "Download successful", "Download erfolgreich", "Téléchargement réussi"),
    ("dlw.failed", "Download failed", "Download fehlgeschlagen", "Échec du téléchargement"),
    (
        "dlw.failed_log",
        "\n=== Download failed (code {}) ===",
        "\n=== Download fehlgeschlagen (Code {}) ===",
        "\n=== Échec du téléchargement (code {}) ===",
    ),
    (
        "dlw.tip_instagram",
        "Tip: known Instagram \"empty media response\" bug (yt-dlp #17074), fixed in {}. Update yt-dlp in the Setup tab.",
        "Tipp: Bekannter Instagram-Bug „empty media response“ (yt-dlp #17074), behoben in {}. yt-dlp im Reiter Einrichtung aktualisieren.",
        "Astuce : bogue Instagram connu « empty media response » (yt-dlp #17074), corrigé dans {}. Mettez yt-dlp à jour dans l'onglet Installation.",
    ),
    (
        "dlw.tip_formats",
        "Tip: the site withheld formats or wants a login. Set cookies (cookies.txt), install Deno, or update yt-dlp.",
        "Tipp: Die Seite hat Formate zurückgehalten oder verlangt einen Login. Cookies setzen (cookies.txt), Deno installieren oder yt-dlp aktualisieren.",
        "Astuce : le site a retenu des formats ou exige une connexion. Définissez des cookies (cookies.txt), installez Deno ou mettez yt-dlp à jour.",
    ),
    (
        "dlw.tip_nojs",
        "Tip: no JS runtime detected. Setup tab -> 'Install Deno' (needed for the YouTube n-challenge).",
        "Tipp: Keine JS-Laufzeit erkannt. Reiter Einrichtung -> „Deno installieren“ (nötig für die YouTube-n-Challenge).",
        "Astuce : aucun moteur JS détecté. Onglet Installation -> « Installer Deno » (nécessaire pour le n-challenge YouTube).",
    ),
    (
        "dlw.panic",
        "Error: internal download worker panic",
        "Fehler: Interner Absturz des Download-Workers",
        "Erreur : plantage interne du processus de téléchargement",
    ),
    (
        "dlw.progress_status",
        "{}%  |  {}  |  ETA {}",
        "{}%  |  {}  |  Restzeit {}",
        "{} %  |  {}  |  Temps restant {}",
    ),
    (
        "dlw.downloading_pct",
        "Downloading ... {}%",
        "Lade herunter ... {}%",
        "Téléchargement ... {} %",
    ),
    (
        "dlw.anon_name",
        "Neutral file name: {}",
        "Neutraler Dateiname: {}",
        "Nom de fichier neutre : {}",
    ),
    (
        "dlw.playlist_mode",
        "Playlist mode - existing files are handled one by one.",
        "Playlist-Modus - vorhandene Dateien werden einzeln behandelt.",
        "Mode playlist - les fichiers existants sont traités un par un.",
    ),
    (
        "dlw.retrying",
        "The server rejected the transfer - trying again with fresh links ({} of {}).",
        "Der Server hat die Übertragung abgelehnt - neuer Versuch mit frischen Links ({} von {}).",
        "Le serveur a rejeté le transfert - nouvel essai avec des liens neufs ({} sur {}).",
    ),
    (
        "dlw.retrying_net",
        "The connection failed - trying again ({} of {}).",
        "Die Verbindung ist abgebrochen - neuer Versuch ({} von {}).",
        "La connexion a échoué - nouvel essai ({} sur {}).",
    ),
    ("dlw.retry_status", "Trying again ...", "Neuer Versuch ...", "Nouvel essai ..."),
    (
        "dlw.tip_403",
        "Tip: the server kept rejecting the transfer (403). Set cookies (cookies.txt), update yt-dlp, or try again later.",
        "Tipp: Der Server hat die Übertragung wiederholt abgelehnt (403). Cookies setzen (cookies.txt), yt-dlp aktualisieren oder später erneut versuchen.",
        "Astuce : le serveur a rejeté le transfert à plusieurs reprises (403). Définissez des cookies (cookies.txt), mettez yt-dlp à jour ou réessayez plus tard.",
    ),
    // ---------------- convert worker ----------------
    (
        "cvw.started",
        "=== Conversion started ===",
        "=== Konvertierung gestartet ===",
        "=== Conversion démarrée ===",
    ),
    (
        "cvw.codec_audio",
        "Codec:  {} -> {} (audio only)",
        "Codec:  {} -> {} (nur Audio)",
        "Codec :  {} -> {} (audio seul)",
    ),
    ("cvw.codec", "Codec:  {} -> {}", "Codec:  {} -> {}", "Codec :  {} -> {}"),
    ("cvw.hw_auto", "HW:     auto -> {}", "HW:     auto -> {}", "Matériel : auto -> {}"),
    ("cvw.mode", "Mode:   {}", "Modus:  {}", "Mode :  {}"),
    ("cvw.mode_custom", "Custom {}M", "Eigene {}M", "Personnalisé {}M"),
    ("cvw.mode_crf", "CRF {}", "CRF {}", "CRF {}"),
    ("cvw.source", "Source: pix_fmt={}", "Quelle: pix_fmt={}", "Source : pix_fmt={}"),
    ("cvw.color", "Color:  {}", "Farbe:  {}", "Couleur : {}"),
    ("cvw.duration", "Duration: {}s", "Dauer: {}s", "Durée : {} s"),
    (
        "cvw.converting_pct",
        "Converting ... {}%  |  {}  |  {}  |  {} fps  |  ETA {}",
        "Konvertiere ... {}%  |  {}  |  {}  |  {} fps  |  Restzeit {}",
        "Conversion ... {} %  |  {}  |  {}  |  {} fps  |  Temps restant {}",
    ),
    (
        "cvw.converting_plain",
        "Converting ...  |  {}  |  {}  |  {} fps",
        "Konvertiere ...  |  {}  |  {}  |  {} fps",
        "Conversion ...  |  {}  |  {}  |  {} fps",
    ),
    (
        "cvw.cancelled_log",
        "\n=== Conversion cancelled ===",
        "\n=== Konvertierung abgebrochen ===",
        "\n=== Conversion annulée ===",
    ),
    ("cvw.completed", "Conversion completed", "Konvertierung abgeschlossen", "Conversion terminée"),
    (
        "cvw.success_log",
        "\n=== Conversion successful ===",
        "\n=== Konvertierung erfolgreich ===",
        "\n=== Conversion réussie ===",
    ),
    (
        "cvw.success_toast",
        "Conversion successful",
        "Konvertierung erfolgreich",
        "Conversion réussie",
    ),
    ("cvw.failed", "Conversion failed", "Konvertierung fehlgeschlagen", "Échec de la conversion"),
    (
        "cvw.failed_log",
        "\n=== Conversion failed (code {}) ===",
        "\n=== Konvertierung fehlgeschlagen (Code {}) ===",
        "\n=== Échec de la conversion (code {}) ===",
    ),
    (
        "cvw.panic",
        "Error: internal conversion worker panic",
        "Fehler: Interner Absturz des Konvertierungs-Workers",
        "Erreur : plantage interne du processus de conversion",
    ),
    ("cvw.trim", "Trim:   {} -> {}", "Schnitt: {} -> {}", "Découpe : {} -> {}"),
    // ---------------- history tab ----------------
    (
        "hist.subtitle",
        "Finished downloads and conversions",
        "Fertige Downloads und Konvertierungen",
        "Téléchargements et conversions terminés",
    ),
    ("hist.count", "{} of {}", "{} von {}", "{} sur {}"),
    ("hist.clear", "Clear history", "Verlauf leeren", "Effacer l'historique"),
    ("hist.empty", "Nothing here yet.", "Hier ist noch nichts.", "Rien ici pour l'instant."),
    ("hist.copied", "Copied", "Kopiert", "Copié"),
    ("hist.copy_path", "Copy path", "Pfad kopieren", "Copier le chemin"),
    ("hist.copy_url", "Copy link", "Link kopieren", "Copier le lien"),
    ("hist.missing", "file not found", "Datei nicht gefunden", "fichier introuvable"),
    ("hist.reuse", "Download again", "Erneut herunterladen", "Télécharger à nouveau"),
    (
        "hist.reused",
        "Link loaded into the Download tab",
        "Link in den Download-Reiter geladen",
        "Lien chargé dans l'onglet Téléchargement",
    ),
    // ---------------- theme options ----------------
    (
        "theme.toggle",
        "Switch between dark and light",
        "Zwischen dunkel und hell wechseln",
        "Basculer entre sombre et clair",
    ),
    // ---------------- times ----------------
    ("when.now", "just now", "gerade eben", "à l'instant"),
    ("when.minutes", "{} min ago", "vor {} Min.", "il y a {} min"),
    ("when.hours", "{} h ago", "vor {} Std.", "il y a {} h"),
    ("when.days", "{} d ago", "vor {} Tagen", "il y a {} j"),
    // ---------------- updates ----------------
    ("update.title", "Update available", "Update verfügbar", "Mise à jour disponible"),
    (
        "update.body",
        "Version {} is available - you are running {}.",
        "Version {} ist verfügbar - installiert ist {}.",
        "La version {} est disponible - vous utilisez la {}.",
    ),
    ("update.notes", "What's new", "Neuigkeiten", "Nouveautés"),
    (
        "update.no_asset",
        "This release has no verified download for this system - open its page instead.",
        "Diese Version hat keinen geprüften Download für dieses System - bitte die Seite öffnen.",
        "Cette version n'a pas de téléchargement vérifié pour ce système - ouvrez plutôt sa page.",
    ),
    ("update.install", "Install", "Installieren", "Installer"),
    ("update.open_page", "Open page", "Seite öffnen", "Ouvrir la page"),
    ("update.later", "Later", "Später", "Plus tard"),
    ("update.skip", "Skip this version", "Diese Version überspringen", "Ignorer cette version"),
    ("update.restart", "Restart now", "Jetzt neu starten", "Redémarrer maintenant"),
    ("update.check_now", "Check for updates", "Nach Updates suchen", "Rechercher des mises à jour"),
    ("update.auto_check", "Check on start", "Beim Start prüfen", "Vérifier au démarrage"),
    (
        "update.checking",
        "Checking for updates ...",
        "Suche nach Updates ...",
        "Recherche de mises à jour ...",
    ),
    (
        "update.check_failed",
        "Update check failed: {}",
        "Update-Prüfung fehlgeschlagen: {}",
        "Échec de la recherche de mises à jour : {}",
    ),
    (
        "update.downloading",
        "Downloading the update",
        "Lade das Update herunter",
        "Téléchargement de la mise à jour",
    ),
    (
        "update.failed",
        "Update failed: {}",
        "Update fehlgeschlagen: {}",
        "Échec de la mise à jour : {}",
    ),
    (
        "update.installed",
        "Version {} is installed - restart to use it.",
        "Version {} ist installiert - zum Verwenden neu starten.",
        "La version {} est installée - redémarrez pour l'utiliser.",
    ),
    (
        "update.up_to_date",
        "You are up to date ({}).",
        "Alles aktuell ({}).",
        "Vous êtes à jour ({}).",
    ),
];

/// The first row from `i` on that carries `key`.
pub open spec fn row_from(rows: Seq<Row>, key: Seq<char>, i: int) -> Option<int>
    decreases rows.len() - i,
{
    if i < 0 || i >= rows.len() {
        None
    } else if rows[i].0@ == key {
        Some(i)
    } else {
        row_from(rows, key, i + 1)
    }
}

/// The wording of a row in one language.
pub open spec fn wording(row: Row, lang: Lang) -> Seq<char> {
    match lang {
        Lang::En => row.1@,
        Lang::De => row.2@,
        Lang::Fr => row.3@,
    }
}

/// The wording of `key`: what its row says, or the key itself where there is
/// no such row.
#[verifier::opaque]
pub open spec fn phrase(lang: Lang, key: Seq<char>) -> Seq<char> {
    match row_from(LABELS@, key, 0) {
        Some(i) => wording(LABELS@[i], lang),
        None => match row_from(TABLE@, key, 0) {
            Some(i) => wording(TABLE@[i], lang),
            None => key,
        },
    }
}

fn word_in(rows: &[Row], lang: Lang, key: &str) -> (r: Option<&'static str>)
    ensures
        opt_str(r) == (match row_from(rows@, key@, 0) {
            Some(i) => Some(wording(rows@[i], lang)),
            None => None,
        }),
{
    let mut i: usize = 0;
    while i < rows.len()
        invariant
            i <= rows@.len(),
            row_from(rows@, key@, 0) == row_from(rows@, key@, i as int),
        decreases rows@.len() - i,
    {
        if same(rows[i].0, key) {
            return Some(
                match lang {
                    Lang::En => rows[i].1,
                    Lang::De => rows[i].2,
                    Lang::Fr => rows[i].3,
                },
            );
        }
        i += 1;
    }
    None
}

/// Keys are always literals, so an unknown one can be handed straight back
/// without allocating - a missing wording shows up as its own key.
pub fn t(lang: Lang, key: &'static str) -> (r: &'static str)
    ensures
        r@ == phrase(lang, key@),
{
    proof {
        reveal(phrase);
    }
    if let Some(word) = word_in(&LABELS, lang, key) {
        return word;
    }
    match word_in(&TABLE, lang, key) {
        Some(word) => word,
        None => key,
    }
}

// ---------------- placeholders ----------------

/// What goes into the `i`-th placeholder: the argument, or the placeholder
/// itself where there is none.
pub open spec fn slot(args: Seq<Seq<char>>, i: int) -> Seq<char> {
    if 0 <= i < args.len() {
        args[i]
    } else {
        "{}"@
    }
}

/// The pieces of a template with an argument between each two of them.
pub open spec fn woven(parts: Seq<Seq<char>>, args: Seq<Seq<char>>) -> Seq<char>
    decreases parts.len(),
{
    if parts.len() == 0 {
        seq![]
    } else if parts.len() == 1 {
        parts[0]
    } else {
        woven(parts.drop_last(), args) + slot(args, parts.len() - 2) + parts.last()
    }
}

/// A template with its placeholders filled. Only the template is searched for
/// placeholders, never what was put in.
pub open spec fn filled(template: Seq<char>, args: Seq<Seq<char>>) -> Seq<char> {
    woven(pieces(template, "{}"@), args)
}

/// Fills the placeholders of a template in order.
pub fn fill(template: &str, args: &[&str]) -> (r: String)
    ensures
        r@ == filled(template@, strs(args@)),
{
    proof {
        reveal_strlit("{}");
    }
    let parts = split(template, "{}");
    let ghost all = texts(parts@);
    let mut out = String::new();
    assert(all.take(0) =~= seq![]);
    for i in 0..parts.len()
        invariant
            all == texts(parts@),
            out@ == woven(all.take(i as int), strs(args@)),
    {
        let ghost t = all.take(i + 1);
        assert(t.drop_last() =~= all.take(i as int));
        assert(t.last() == parts@[i as int]@);
        if i > 0 {
            if i - 1 < args.len() {
                out.append(args[i - 1]);
            } else {
                out.append("{}");
            }
        }
        out.append(parts[i].as_str());
        assert(i == 0 ==> out@ =~= parts@[0]@);
    }
    assert(all.take(all.len() as int) =~= all);
    out
}

/// Substitutes `args` into the `{}` placeholders of `key`'s wording.
///
/// Substitution never re-scans inserted text, so an argument that itself
/// contains `{}` (a file name, say) cannot swallow the next placeholder.
pub fn tf(lang: Lang, key: &'static str, args: &[&str]) -> (r: String)
    ensures
        r@ == filled(phrase(lang, key@), strs(args@)),
{
    fill(t(lang, key), args)
}

/// A phrase with one argument.
pub open spec fn with_argument(lang: Lang, key: Seq<char>, a: Seq<char>) -> Seq<char> {
    filled(phrase(lang, key), seq![a])
}

/// Looks up a key and fills in one argument.
pub fn tf_one(lang: Lang, key: &'static str, a: &str) -> (r: String)
    ensures
        r@ == with_argument(lang, key@, a@),
{
    let args = [a];
    let r = tf(lang, key, &args);
    assert(strs(args@) =~= seq![a@]);
    r
}

// ---------------- laws ----------------

/// A language is found again by the code it is stored under.
pub proof fn code_names_the_language(lang: Lang)
    ensures
        lang_of(lang_code(lang)) == lang,
{
    reveal_strlit("en");
    reveal_strlit("de");
    reveal_strlit("fr");
    assert("en"@[0] != "de"@[0]);
    assert("en"@[0] != "fr"@[0]);
    assert("de"@[0] != "fr"@[0]);
}

/// Without arguments every placeholder stays visible: the template comes back
/// as it is.
pub proof fn missing_arguments_leave_the_template(template: Seq<char>)
    ensures
        filled(template, seq![]) == template,
{
    reveal_strlit("{}");
    lemma_woven_empty(pieces(template, "{}"@));
    lemma_joined_pieces(template, "{}"@);
}

proof fn lemma_woven_empty(parts: Seq<Seq<char>>)
    ensures
        woven(parts, seq![]) == joined(parts, "{}"@),
    decreases parts.len(),
{
    if parts.len() > 1 {
        lemma_woven_empty(parts.drop_last());
    }
}

/// A template without a placeholder ignores what it is given.
pub proof fn a_plain_template_stays(template: Seq<char>, args: Seq<Seq<char>>)
    requires
        !within(template, "{}"@),
    ensures
        filled(template, args) == template,
{
    lemma_first_at(template, "{}"@, 0);
}

/// What an argument says has no part in where the next one goes: a template
/// cut at its first placeholder is filled piece by piece.
pub proof fn arguments_are_not_rescanned(
    before: Seq<char>,
    rest: Seq<char>,
    first: Seq<char>,
    others: Seq<Seq<char>>,
)
    requires
        first_at(before + "{}"@ + rest, "{}"@, 0) == Some(before.len() as int),
    ensures
        filled(before + "{}"@ + rest, seq![first] + others) == before + first + filled(
            rest,
            others,
        ),
{
    reveal_strlit("{}");
    let whole = before + "{}"@ + rest;
    let p = pieces(rest, "{}"@);
    assert(whole.take(before.len() as int) =~= before);
    assert(whole.skip((before.len() + 2) as int) =~= rest);
    assert(pieces(whole, "{}"@) == seq![before] + p);
    lemma_pieces_nonempty(rest, "{}"@);
    lemma_woven_front(before, p, first, others);
}

proof fn lemma_woven_front(
    head: Seq<char>,
    parts: Seq<Seq<char>>,
    first: Seq<char>,
    others: Seq<Seq<char>>,
)
    requires
        parts.len() >= 1,
    ensures
        woven(seq![head] + parts, seq![first] + others) == head + first + woven(parts, others),
    decreases parts.len(),
{
    let all = seq![head] + parts;
    let args = seq![first] + others;
    if parts.len() == 1 {
        assert(all.drop_last() =~= seq![head]);
        assert(woven(all.drop_last(), args) == head);
        assert(slot(args, 0) == first);
        assert(all.last() == parts[0]);
        assert(woven(all, args) =~= head + first + parts[0]);
    } else {
        lemma_woven_front(head, parts.drop_last(), first, others);
        assert(all.drop_last() =~= seq![head] + parts.drop_last());
        assert(all.last() == parts.last());
        assert(slot(args, all.len() - 2) == slot(others, parts.len() - 2));
        assert(woven(all, args) =~= head + first + woven(parts, others));
    }
}

proof fn lemma_row_at(rows: Seq<Row>, key: Seq<char>, at: int, i: int)
    requires
        0 <= at <= i < rows.len(),
        rows[i].0@ == key,
        forall|j: int| at <= j < i ==> (#[trigger] rows[j]).0@ != key,
    ensures
        row_from(rows, key, at) == Some(i),
    decreases i - at,
{
    if at < i {
        lemma_row_at(rows, key, at + 1, i);
    }
}

proof fn lemma_no_row(rows: Seq<Row>, key: Seq<char>, at: int)
    requires
        0 <= at,
        forall|j: int| at <= j < rows.len() ==> (#[trigger] rows[j]).0@ != key,
    ensures
        row_from(rows, key, at) is None,
    decreases rows.len() - at,
{
    if at < rows.len() {
        lemma_no_row(rows, key, at + 1);
    }
}

/// A key is worded in each language by the column of that language in its row:
/// English first, then German, then French. An unknown key is its own wording.
pub proof fn a_key_is_worded_by_its_row(key: Seq<char>, i: int)
    requires
        0 <= i <= TABLE@.len(),
        forall|j: int| 0 <= j < LABELS@.len() ==> (#[trigger] LABELS@[j]).0@ != key,
        forall|j: int| 0 <= j < i ==> (#[trigger] TABLE@[j]).0@ != key,
        i < TABLE@.len() ==> TABLE@[i].0@ == key,
    ensures
        i < TABLE@.len() ==> phrase(Lang::En, key) == TABLE@[i].1@ && phrase(Lang::De, key)
            == TABLE@[i].2@ && phrase(Lang::Fr, key) == TABLE@[i].3@,
        i == TABLE@.len() ==> phrase(Lang::En, key) == key && phrase(Lang::De, key) == key
            && phrase(Lang::Fr, key) == key,
{
    reveal(phrase);
    lemma_no_row(LABELS@, key, 0);
    if i < TABLE@.len() {
        lemma_row_at(TABLE@, key, 0, i);
    } else {
        lemma_no_row(TABLE@, key, 0);
    }
}

/// A choice is labelled in each language by the column of that language in its
/// row.
pub proof fn a_label_is_worded_by_its_row(key: Seq<char>, i: int)
    requires
        0 <= i < LABELS@.len(),
        LABELS@[i].0@ == key,
        forall|j: int| 0 <= j < i ==> (#[trigger] LABELS@[j]).0@ != key,
    ensures
        phrase(Lang::En, key) == LABELS@[i].1@,
        phrase(Lang::De, key) == LABELS@[i].2@,
        phrase(Lang::Fr, key) == LABELS@[i].3@,
{
    reveal(phrase);
    lemma_row_at(LABELS@, key, 0, i);
}

/// The codes of the languages, and what is made of any other: English.
pub proof fn languages_have_their_codes(code: Seq<char>)
    ensures
        lang_code(Lang::En) == "en"@ && lang_code(Lang::De) == "de"@ && lang_code(Lang::Fr) == "fr"@,
        lang_of("de"@) == Lang::De && lang_of("fr"@) == Lang::Fr,
        code != "de"@ && code != "fr"@ ==> lang_of(code) == Lang::En,
{
    reveal_strlit("de");
    reveal_strlit("fr");
    assert("de"@[0] == 'd' && "fr"@[0] == 'f');
}

/// Two arguments go into two placeholders, the first into the first.
pub proof fn placeholders_are_filled_in_order(
    a: Seq<char>,
    b: Seq<char>,
    c: Seq<char>,
    x: Seq<char>,
    y: Seq<char>,
)
    requires
        !a.contains('{') && !b.contains('{') && !c.contains('{'),
    ensures
        filled(a + "{}"@ + (b + "{}"@ + c), seq![x, y]) == a + x + (b + y + c),
{
    reveal_strlit("{}");
    lemma_placeholder_at(a, b + "{}"@ + c);
    lemma_placeholder_at(b, c);
    assert(seq![x, y] =~= seq![x] + seq![y]);
    assert(seq![y] =~= seq![y] + Seq::<Seq<char>>::empty());
    arguments_are_not_rescanned(a, b + "{}"@ + c, x, seq![y]);
    arguments_are_not_rescanned(b, c, y, Seq::empty());
    missing_arguments_leave_the_template(c);
    assert(Seq::<Seq<char>>::empty() =~= seq![]);
}

proof fn lemma_placeholder_at(before: Seq<char>, rest: Seq<char>)
    requires
        !before.contains('{'),
    ensures
        first_at(before + "{}"@ + rest, "{}"@, 0) == Some(before.len() as int),
{
    reveal_strlit("{}");
    let s = before + "{}"@ + rest;
    let n = before.len() as int;
    assert(s.subrange(n, n + 2) =~= "{}"@);
    assert forall|j: int| 0 <= j < n implies !is_at(s, "{}"@, j) by {
        if is_at(s, "{}"@, j) {
            assert(s.subrange(j, j + 2)[0] == '{');
            assert(before[j] == '{');
        }
    }
    lemma_first_is(s, "{}"@, n);
}

/// Each language is shown under its own name.
pub proof fn languages_have_their_names()
    ensures
        own_name(Lang::En) == "English"@,
        own_name(Lang::De) == "Deutsch"@,
        own_name(Lang::Fr) == "Français"@,
{
}

} // verus!
