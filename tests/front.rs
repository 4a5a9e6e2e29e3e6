use multirust::config::ConfigStore;
use multirust::error::Error;
use multirust::session::{
    check_gate, confirmed, doc_url, install_offer, listing_lines, max_name_len, needs_metadata_check,
    needs_setup_check, padded_name, parse_answer, setup_warning, update_line, InstallOffer, Level,
    Notifier, Route, SetupWarning, NO_OVERRIDES, NO_TOOLCHAINS,
};

#[test]
fn answers() {
    assert_eq!(parse_answer("y"), Some(true));
    assert_eq!(parse_answer("Y"), Some(true));
    assert_eq!(parse_answer("n"), Some(false));
    assert_eq!(parse_answer("N"), Some(false));
    assert_eq!(parse_answer("yes"), None);
    assert_eq!(parse_answer(""), None);
    assert!(confirmed(Some(true)));
    assert!(!confirmed(Some(false)));
    assert!(!confirmed(None));
}

#[test]
fn gates() {
    assert!(!needs_metadata_check(Some("install")));
    assert!(!needs_metadata_check(Some("upgrade-data")));
    assert!(!needs_metadata_check(Some("delete-data")));
    assert!(!needs_metadata_check(Some("uninstall")));
    assert!(needs_metadata_check(Some("update")));
    assert!(!needs_metadata_check(None));
    assert!(!needs_setup_check(Some("proxy")));
    assert!(!needs_setup_check(Some("install")));
    assert!(needs_setup_check(Some("run")));
    assert!(needs_setup_check(None));
}

#[test]
fn gate_with_stale_version() {
    let mut cfg = ConfigStore::new("/h".to_string());
    assert!(check_gate(&cfg, Some("override")).is_ok());
    cfg.metadata_version = "1".to_string();
    assert!(matches!(check_gate(&cfg, Some("override")), Err(Error::MetadataVersionMismatch { .. })));
    assert!(check_gate(&cfg, Some("upgrade-data")).is_ok());
    assert!(check_gate(&cfg, None).is_ok());
}

#[test]
fn setup_warnings() {
    assert!(setup_warning(true, false).is_none());
    assert!(matches!(setup_warning(false, false), Some(SetupWarning::NotInstalled)));
    assert!(matches!(setup_warning(false, true), Some(SetupWarning::NotOnPath)));
    let m = SetupWarning::NotOnPath.message("/h/bin");
    assert!(m.contains("Ensure '/h/bin' is on your PATH"));
}

#[test]
fn first_run_offers() {
    assert!(matches!(install_offer(false, false), InstallOffer::Install));
    assert!(matches!(install_offer(true, false), InstallOffer::Replace));
    assert!(matches!(install_offer(true, true), InstallOffer::AlreadyCurrent));
}

#[test]
fn notification_routes() {
    let quiet = Notifier { verbose: false };
    let loud = Notifier { verbose: true };
    assert!(matches!(quiet.route(Level::Verbose), Route::Silent));
    assert!(matches!(loud.route(Level::Verbose), Route::Stdout));
    assert!(matches!(quiet.route(Level::Normal), Route::Stdout));
    assert!(matches!(quiet.route(Level::Info), Route::Info));
    assert!(matches!(quiet.route(Level::Warn), Route::Warn));
    assert!(matches!(quiet.route(Level::Error), Route::Error));
}

#[test]
fn docs_page() {
    assert_eq!(doc_url(true), "index.html");
    assert_eq!(doc_url(false), "std/index.html");
}

#[test]
fn empty_listings_say_so() {
    assert_eq!(listing_lines(Vec::new(), NO_OVERRIDES), vec!["no overrides"]);
    assert_eq!(listing_lines(Vec::new(), NO_TOOLCHAINS), vec!["no installed toolchains"]);
    assert_eq!(listing_lines(vec!["/a".to_string()], NO_OVERRIDES), vec!["/a"]);
}

#[test]
fn update_report_alignment() {
    let names = vec!["stable".to_string(), "nightly".to_string(), "beta".to_string()];
    assert_eq!(max_name_len(&names), 7);
    assert_eq!(max_name_len(&Vec::new()), 0);
    assert_eq!(padded_name("beta", 7), "   beta");
    assert_eq!(update_line("beta", 7, true), "   beta update succeeded");
    assert_eq!(update_line("nightly", 7, false), "nightly update FAILED");
}
