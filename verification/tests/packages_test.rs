use riceforge::error::RiceForgeError;
use riceforge::packages::{join_with, PackageManager};

#[test]
fn packages_missing_keeps_uninstalled_in_order() {
    let pkgs = vec!["waybar".to_string(), "rofi".to_string(), "kitty".to_string()];
    assert_eq!(PackageManager::missing(&pkgs, &[false, true, false]), vec!["waybar", "kitty"]);
    assert!(PackageManager::missing(&pkgs, &[true, true, true]).is_empty());
}

#[test]
fn packages_install_arguments() {
    assert_eq!(
        PackageManager::install(&["waybar", "kitty"]),
        Some(vec![
            "pacman".to_string(),
            "-S".to_string(),
            "--needed".to_string(),
            "--noconfirm".to_string(),
            "waybar".to_string(),
            "kitty".to_string()
        ])
    );
    assert_eq!(PackageManager::install(&[]), None);
}

#[test]
fn packages_query_arguments() {
    assert_eq!(PackageManager::query_args("waybar"), vec!["-Q", "waybar"]);
    assert_eq!(PackageManager::availability_args(), vec!["--version"]);
}

#[test]
fn packages_error_messages() {
    let pkgs = vec!["a".to_string(), "b".to_string()];
    assert_eq!(
        PackageManager::install_failure(&pkgs),
        RiceForgeError::PackageManager("pacman failed for: a, b".to_string())
    );
    assert_eq!(
        PackageManager::launch_error("denied"),
        RiceForgeError::PackageManager("sudo/pacman unavailable: denied".to_string())
    );
}

#[test]
fn packages_join_with_separator() {
    assert_eq!(join_with(&[], ", "), "");
    assert_eq!(join_with(&["x".to_string()], ", "), "x");
    assert_eq!(join_with(&["x".to_string(), "y".to_string(), "z".to_string()], "-"), "x-y-z");
}
