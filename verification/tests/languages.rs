//! Texts in every language, and the option tables.

use video_tool::consts::{
    clean_playlist_items, codec_options, is_rate_limit, Choice, BITRATE_MODE_OPTIONS,
    CATEGORY_OPTIONS, CHANNEL_OPTIONS, CONFLICT_OPTIONS, COOKIES_OPTIONS, HISTORY_FILTER_OPTIONS,
    HW_OPTIONS, QUALITY_OPTIONS, THEME_OPTIONS,
};
use video_tool::i18n::{fill, t, tf, Lang, LANGS};

#[test]
fn unknown_key_falls_back_to_itself() {
    assert_eq!(t(Lang::De, "no.such.key"), "no.such.key");
}

#[test]
fn placeholders_are_filled_in_order() {
    assert_eq!(
        tf(Lang::En, "dlw.exists_saving_as", &["a.mp4", "a (1).mp4"]),
        "\"a.mp4\" already exists - saving as \"a (1).mp4\"."
    );
}

#[test]
fn argument_containing_a_placeholder_is_not_rescanned() {
    // A file literally named "{}" must not swallow the second slot.
    assert_eq!(
        tf(Lang::En, "dlw.exists_saving_as", &["{}", "b.mp4"]),
        "\"{}\" already exists - saving as \"b.mp4\"."
    );
}

#[test]
fn missing_arguments_leave_the_placeholder_visible() {
    assert_eq!(tf(Lang::En, "cvw.mode_crf", &[]), "CRF {}");
}

/// Every dropdown label is a key; a typo would otherwise silently render
/// as the raw key in the UI.
#[test]
fn every_option_table_key_is_translated() {
    let mut tables: Vec<&[Choice]> = vec![
        &QUALITY_OPTIONS,
        &CONFLICT_OPTIONS,
        &COOKIES_OPTIONS,
        &CATEGORY_OPTIONS,
        &HW_OPTIONS,
        &BITRATE_MODE_OPTIONS,
        &CHANNEL_OPTIONS,
    ];
    for (category, _) in CATEGORY_OPTIONS {
        tables.push(codec_options(category));
    }

    for table in tables {
        for (value, key) in table {
            for lang in LANGS {
                assert_ne!(
                    t(lang, key),
                    *key,
                    "missing {:?} translation for option '{value}' (key '{key}')",
                    lang
                );
            }
        }
    }
}

#[test]
fn the_other_option_tables_are_translated_too() {
    for (value, key) in HISTORY_FILTER_OPTIONS.iter().chain(THEME_OPTIONS.iter()) {
        for lang in LANGS {
            assert_ne!(t(lang, key), *key, "{value}");
        }
    }
}

#[test]
fn a_language_is_found_again_by_its_code() {
    for lang in LANGS {
        assert_eq!(Lang::from_code(lang.code()), lang);
        assert!(!lang.label().is_empty());
    }
    assert_eq!(Lang::from_code("xx"), Lang::En);
}

#[test]
fn a_template_without_slots_takes_no_argument() {
    assert_eq!(fill("plain", &["x"]), "plain");
    assert_eq!(fill("{}{}", &["{}", "b"]), "{}b");
}

#[test]
fn only_a_real_rate_reaches_yt_dlp() {
    for good in ["2M", "500K", "1.5M", "800", "3g"] {
        assert!(is_rate_limit(good), "{good}");
    }
    // Anything else would arrive as a bare argument and be read as an
    // option or a URL.
    for bad in ["", "  ", "fast", "-1M", "0", "2MB", "--rm -rf", "2 M"] {
        assert!(!is_rate_limit(bad), "{bad}");
    }
}

#[test]
fn a_playlist_range_keeps_only_range_characters() {
    assert_eq!(clean_playlist_items("1-10"), "1-10");
    assert_eq!(clean_playlist_items("3,5,7"), "3,5,7");
    assert_eq!(clean_playlist_items("1:3:2"), "1:3:2");
    assert_eq!(clean_playlist_items(" 1 - 10 "), "1-10");
    assert_eq!(clean_playlist_items("1;rm -rf /"), "1-");
    // A value that would arrive as an option instead of a range.
    assert_eq!(clean_playlist_items("-f bestvideo"), "");
    assert_eq!(clean_playlist_items(",,2-4"), "2-4");
}
