//! Update checks, downloads and the dialog around them.

use std::path::PathBuf;

use video_tool::consts::VERSION;
use video_tool::digest::{sha256_file, short_hash};
use video_tool::i18n::{t, tf, Lang};
use video_tool::types::CheckKind;
use video_tool::update::{
    after_failure, asset_name, check_latest, describe, is_newer, is_transient, vet_update,
    with_suffix, AfterFailure, Asset, HttpFailure, Release,
};
use video_tool::updater::{UpdateUi, Updater};

#[test]
fn newer_versions_are_detected() {
    assert!(is_newer("0.1.1", "0.1.0"));
    assert!(is_newer("0.2.0", "0.1.9"));
    assert!(is_newer("1.0.0", "0.9.9"));
}

#[test]
fn same_or_older_versions_are_not_offered() {
    assert!(!is_newer("0.1.1", "0.1.1"));
    assert!(!is_newer("0.1.0", "0.1.1"));
    assert!(!is_newer("0.9.9", "1.0.0"));
}

#[test]
fn differing_component_counts_compare_by_position() {
    // "0.2" is newer than "0.1.9"; "0.1" is not newer than "0.1.0".
    assert!(is_newer("0.2", "0.1.9"));
    assert!(!is_newer("0.1", "0.1.0"));
    assert!(is_newer("0.1.0.1", "0.1.0"));
}

#[test]
fn a_leading_v_in_the_tag_is_ignored() {
    assert!(!is_newer("v0.1.1".trim_start_matches('v'), "0.1.1"));
}

/// A failed request with this status.
fn status_err(code: u16) -> HttpFailure {
    HttpFailure::Status(code)
}

#[test]
fn server_side_failures_are_retried() {
    for code in [408, 429, 500, 502, 503, 504] {
        assert!(is_transient(&status_err(code)), "{code} should be retried");
    }
}

#[test]
fn client_side_failures_are_not_retried() {
    for code in [400, 401, 403, 404] {
        assert!(
            !is_transient(&status_err(code)),
            "{code} should not be retried"
        );
    }
}

#[test]
fn the_message_names_the_status_without_repeating_the_url() {
    let msg = describe(&status_err(504));
    assert!(msg.contains("504"), "{msg}");
    assert!(!msg.contains("api.github.com"), "{msg}");
}

#[test]
fn backup_path_keeps_the_extension_before_the_suffix() {
    let p = with_suffix(&PathBuf::from("C:/x/video_tool.exe"), ".old");
    assert_eq!(p.file_name().unwrap(), "video_tool.exe.old");
}

#[test]
fn a_broken_connection_is_tried_again_and_then_reported() {
    let down = HttpFailure::Transport("timed out".to_string());
    assert!(is_transient(&down));
    assert_eq!(describe(&down), "could not reach GitHub (timed out)");
    assert!(matches!(after_failure(0, &down), AfterFailure::Again(1)));
    assert!(matches!(after_failure(1, &down), AfterFailure::Again(2)));
    match after_failure(2, &down) {
        AfterFailure::GiveUp(m) => assert_eq!(m, describe(&down)),
        other => panic!("{other:?}"),
    }
    assert!(matches!(after_failure(0, &status_err(404)), AfterFailure::GiveUp(_)));
}

const DIGEST: &str = "ba7816bf8f01cfea414140de5dae2223b00361a396177a9cb410ff61f20015ad";

fn release_text(tag: &str, digest: &str) -> String {
    format!(
        "{{\"tag_name\":\"{tag}\",\"body\":\" news \",\"assets\":[\
         {{\"name\":\"other\"}},\
         {{\"name\":\"video_tool\",\"digest\":\"{digest}\",\"size\":3,\
         \"browser_download_url\":\"https://example.com/v\"}}]}}"
    )
}

#[test]
fn a_newer_release_is_offered_with_its_asset() {
    let text = release_text("v99.0.0", &format!("sha256:{}", DIGEST.to_uppercase()));
    let release = check_latest(&text, false).unwrap().unwrap();
    assert_eq!(release.version, "99.0.0");
    assert_eq!(release.notes, "news");
    assert_eq!(
        release.page_url,
        "https://github.com/SystemFunction/video-tool-rust/releases/latest"
    );
    let asset = release.asset.unwrap();
    assert_eq!(asset.sha256, DIGEST);
    assert_eq!(asset.size, 3);
    assert_eq!(asset.url, "https://example.com/v");
}

#[test]
fn a_release_without_a_usable_digest_has_no_asset() {
    for digest in ["", "sha256:", "sha256:xyz", "md5:00"] {
        let release = check_latest(&release_text("99", digest), false).unwrap().unwrap();
        assert!(release.asset.is_none(), "{digest}");
    }
    let windows = check_latest(&release_text("99", &format!("sha256:{DIGEST}")), true);
    assert!(windows.unwrap().unwrap().asset.is_none());
    assert_eq!(asset_name(true), "video_tool.exe");
}

#[test]
fn release_data_can_be_current_or_broken() {
    assert!(check_latest(&release_text(VERSION, ""), false).unwrap().is_none());
    assert_eq!(check_latest("{}", false).unwrap_err(), "release has no tag_name");
    let err = check_latest("{", false).unwrap_err();
    assert!(err.starts_with("unexpected release data: "), "{err}");
}

#[test]
fn digests_are_those_of_the_bytes() {
    assert_eq!(sha256_file(&b"abc".to_vec()), DIGEST);
    assert_eq!(short_hash(DIGEST), "ba7816bf8f01");
    assert_eq!(short_hash("ab"), "ab");
}

fn asset(size: u64) -> Asset {
    Asset { url: String::new(), size, sha256: DIGEST.to_string() }
}

#[test]
fn a_download_of_the_wrong_size_or_content_is_discarded() {
    assert!(vet_update(&asset(3), 3, DIGEST).is_ok());
    assert!(vet_update(&asset(0), 7, DIGEST).is_ok());
    assert_eq!(
        vet_update(&asset(3), 4, DIGEST).unwrap_err(),
        "size mismatch - update discarded (expected 3 bytes, got 4)"
    );
    assert_eq!(
        vet_update(&asset(3), 3, "00").unwrap_err(),
        "checksum mismatch - update discarded (expected ba7816bf8f01..., got 00...)"
    );
}

fn release(version: &str, asset: Option<Asset>) -> Release {
    Release {
        version: version.to_string(),
        notes: String::new(),
        page_url: String::new(),
        asset,
    }
}

#[test]
fn a_skipped_version_is_only_reported_when_asked_for() {
    let mut u = Updater::new();
    assert!(u.start_check(CheckKind::Automatic, Lang::En));
    assert!(!u.start_check(CheckKind::Manual, Lang::En));
    u.checked(Ok(Some(release("9", None))), CheckKind::Automatic, "9", Lang::En);
    assert!(matches!(u.ui, UpdateUi::Idle));
    assert!(u.start_check(CheckKind::Manual, Lang::En));
    assert_eq!(u.status, t(Lang::En, "update.checking"));
    u.checked(Ok(Some(release("9", None))), CheckKind::Manual, "9", Lang::En);
    assert!(matches!(u.ui, UpdateUi::Offer(_)));
}

#[test]
fn a_failed_automatic_check_stays_quiet() {
    let mut u = Updater::new();
    u.checked(Err("offline".to_string()), CheckKind::Automatic, "", Lang::En);
    assert_eq!(u.status, "");
    u.checked(Err("offline".to_string()), CheckKind::Manual, "", Lang::En);
    assert_eq!(u.status, tf(Lang::En, "update.check_failed", &["offline"]));
    u.checked(Ok(None), CheckKind::Manual, "", Lang::En);
    assert_eq!(u.status, tf(Lang::En, "update.up_to_date", &[VERSION]));
}

#[test]
fn an_install_stays_on_screen_to_its_end() {
    let mut u = Updater::new();
    u.ui = UpdateUi::Offer(release("9", Some(asset(3))));
    let (what, version) = u.start_install(Lang::En).unwrap();
    assert_eq!((what.sha256.as_str(), version.as_str()), (DIGEST, "9"));
    assert!(matches!(u.ui, UpdateUi::Installing(_)));
    assert!(!u.can_check());
    u.installed(Err("disk full".to_string()), Lang::En);
    assert!(matches!(u.ui, UpdateUi::Failed(_)));
    assert_eq!(u.status, tf(Lang::En, "update.failed", &["disk full"]));
    u.installed(Ok("9".to_string()), Lang::En);
    assert!(matches!(&u.ui, UpdateUi::Installed(v) if v == "9"));
    u.close();
    assert!(matches!(u.ui, UpdateUi::Idle));
    u.ui = UpdateUi::Offer(release("9", None));
    assert!(u.start_install(Lang::En).is_none());
}
