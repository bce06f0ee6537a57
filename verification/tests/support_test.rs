use riceforge::config::Paths;
use riceforge::error::RiceForgeError;
use riceforge::index::{IndexManager, INDEX_URL};
use riceforge::models::WindowManager;
use riceforge::system::{detect_wm, wm_from_str};
use riceforge::text::{contains, starts_with, to_lowercase, trim};

#[test]
fn system_wm_from_session_names() {
    assert_eq!(wm_from_str("Hyprland"), Some(WindowManager::Hyprland));
    assert_eq!(wm_from_str("sway:wlroots"), Some(WindowManager::Sway));
    assert_eq!(wm_from_str("i3-with-shmlog"), Some(WindowManager::I3));
    assert_eq!(wm_from_str("OPENBOX"), Some(WindowManager::Openbox));
    assert_eq!(wm_from_str("GNOME"), None);
    assert_eq!(wm_from_str(""), None);
}

#[test]
fn system_detect_wm_prefers_hyprland_signature() {
    assert_eq!(detect_wm(Some("abc".to_string()), Some("sway".to_string()), None), Some(WindowManager::Hyprland));
    assert_eq!(detect_wm(None, Some("sway".to_string()), Some("qtile".to_string())), Some(WindowManager::Sway));
    assert_eq!(detect_wm(None, None, Some("qtile".to_string())), Some(WindowManager::Qtile));
    assert_eq!(detect_wm(None, None, None), None);
}

#[test]
fn error_messages_have_prefixes() {
    assert_eq!(RiceForgeError::NotFound("x".to_string()).message(), "not found: x");
    assert_eq!(RiceForgeError::AlreadyInstalled("x".to_string()).message(), "already installed: x");
    assert_eq!(RiceForgeError::NoBackup("b".to_string()).message(), "no backup found: b");
    assert_eq!(RiceForgeError::UnsupportedPlatform.message(), "unsupported platform — Linux required");
    assert_eq!(RiceForgeError::Git("g".to_string()).message(), "git: g");
}

#[test]
fn config_app_dir_falls_back_to_tmp() {
    assert_eq!(Paths::app_dir_under(None), "/tmp/riceforge");
    assert_eq!(Paths::app_dir_under(Some("/home/u/.cache".to_string())), "/home/u/.cache/riceforge");
}

#[test]
fn config_locations() {
    assert!(Paths::rices_dir().ends_with("riceforge/rices"));
    assert!(Paths::backups_dir().ends_with("riceforge/backups"));
    assert!(Paths::index_cache().ends_with("riceforge/index.json"));
    assert!(Paths::installed_db().ends_with("riceforge/installed.json"));
    let dirs = Paths::dirs_to_create();
    assert_eq!(dirs.len(), 4);
    assert_eq!(dirs[0], Paths::cache_dir());
    assert_eq!(dirs[1], Paths::data_dir());
    assert_eq!(dirs[2], Paths::rices_dir());
    assert_eq!(dirs[3], Paths::backups_dir());
}

#[test]
fn text_helpers() {
    assert!(contains("hello world", "o w"));
    assert!(contains("abc", ""));
    assert!(!contains("abc", "abcd"));
    assert!(starts_with("https://github.com/x", "https://github.com/"));
    assert!(!starts_with("http", "https"));
    assert_eq!(to_lowercase("ÀB"), "àb");
    assert_eq!(trim("\t a b \n"), "a b");
    assert_eq!(trim("   "), "");
    assert_eq!(trim("x"), "x");
}

#[test]
fn index_fetch_command_and_errors() {
    assert_eq!(IndexManager::fetch_args(), vec!["-sf", "--connect-timeout", "15", INDEX_URL]);
    assert_eq!(IndexManager::fetch_launch_error("x"), RiceForgeError::Http("curl not found: x".to_string()));
    assert_eq!(
        IndexManager::fetch_failure("exit status: 22"),
        RiceForgeError::Http("curl failed (exit status: 22). Check your internet connection.".to_string())
    );
    assert!(IndexManager::require_cache(true).is_ok());
    assert_eq!(
        IndexManager::require_cache(false),
        Err(RiceForgeError::NotFound("no cached index — run 'riceforge update' first".to_string()))
    );
}

#[test]
fn config_locations_under_given_bases() {
    let data = Some("/home/u/.local/share".to_string());
    assert_eq!(Paths::rices_dir_under(data.clone()), "/home/u/.local/share/riceforge/rices");
    assert_eq!(Paths::backups_dir_under(data.clone()), "/home/u/.local/share/riceforge/backups");
    assert_eq!(Paths::installed_db_under(data.clone()), "/home/u/.local/share/riceforge/installed.json");
    assert_eq!(Paths::index_cache_under(Some("/home/u/.cache".to_string())), "/home/u/.cache/riceforge/index.json");
    assert_eq!(Paths::rices_dir_under(None), "/tmp/riceforge/rices");
    let dirs = Paths::dirs_to_create_under(None, data);
    assert_eq!(dirs, vec!["/tmp/riceforge", "/home/u/.local/share/riceforge", "/home/u/.local/share/riceforge/rices", "/home/u/.local/share/riceforge/backups"]);
}

#[test]
fn clock_reads_after_the_epoch() {
    let now = riceforge::clock::utc_now().unwrap();
    assert!(now.secs > 1_600_000_000);
}
