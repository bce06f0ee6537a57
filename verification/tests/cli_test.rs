use riceforge::cli::{Cli, LinkProbe, UpgradeSkip};
use riceforge::error::RiceForgeError;
use riceforge::installed::InstalledManager;
use riceforge::models::{DeployPlan, Index, InstalledRice, Timestamp};
use riceforge::ui::mock_rices;

fn index() -> Index {
    Index { version: "1".to_string(), updated_at: Timestamp { secs: 0, nanos: 0 }, rices: mock_rices() }
}

fn installed(id: &str) -> InstalledRice {
    InstalledRice {
        rice_id: id.to_string(),
        commit_hash: "0123456789".to_string(),
        installed_at: Timestamp { secs: 1, nanos: 0 },
        backup_id: None,
    }
}

#[test]
fn cli_commit_prefix_is_eight_bytes() {
    assert_eq!(Cli::commit_prefix("0123456789abcdef"), "01234567");
    assert_eq!(Cli::commit_prefix("hash1"), "hash1");
    assert_eq!(Cli::commit_prefix("01234567"), "01234567");
    assert_eq!(Cli::commit_prefix("0123456é89"), "0123456é89");
}

#[test]
fn cli_require_rice() {
    let idx = index();
    assert_eq!(Cli::require_rice(&idx, "nord-sway").unwrap().author, "linuxbro");
    assert_eq!(Cli::require_rice(&idx, "nope").err(), Some(RiceForgeError::NotFound("nope".to_string())));
}

#[test]
fn cli_install_gate() {
    assert_eq!(Cli::install_gate("x", false, false, true), Err(RiceForgeError::AlreadyInstalled("x".to_string())));
    assert!(Cli::install_gate("x", true, false, true).is_ok());
    assert!(Cli::install_gate("x", false, true, true).is_ok());
    assert!(Cli::install_gate("x", false, false, false).is_ok());
}

#[test]
fn cli_upgrade_targets() {
    let db = InstalledManager::new(vec![installed("a"), installed("b")]);
    assert_eq!(Cli::upgrade_targets(true, Some("zzz"), &db), Some(vec!["a".to_string(), "b".to_string()]));
    assert_eq!(Cli::upgrade_targets(false, Some("zzz"), &db), Some(vec!["zzz".to_string()]));
    assert_eq!(Cli::upgrade_targets(false, None, &db), None);
}

#[test]
fn cli_search_without_query_filters() {
    let idx = index();
    let ids: Vec<&str> = Cli::search_without_query(&idx, Some("HYPRLAND"), None).iter().map(|r| r.id.as_str()).collect();
    assert_eq!(ids, vec!["catppuccin-hyprland", "tokyo-night-hyprland", "rosepine-hyprland"]);
    let ids: Vec<&str> = Cli::search_without_query(&idx, None, Some("nord")).iter().map(|r| r.id.as_str()).collect();
    assert_eq!(ids, vec!["nord-sway"]);
    assert!(Cli::search_without_query(&idx, None, Some("NORD")).is_empty());
    assert_eq!(Cli::search_without_query(&idx, None, None).len(), 6);
    assert!(Cli::search_without_query(&idx, Some("dwm"), None).is_empty());
}

#[test]
fn cli_broken_links() {
    let plan = DeployPlan {
        links: vec![
            ("/r/a".to_string(), "/h/a".to_string()),
            ("/r/b".to_string(), "/h/b".to_string()),
            ("/r/c".to_string(), "/h/c".to_string()),
            ("/r/d".to_string(), "/h/d".to_string()),
            ("/r/e".to_string(), "/h/e".to_string()),
        ],
        to_backup: vec![],
    };
    let probes = vec![
        LinkProbe { is_symlink: true, target: Some("/r/a".to_string()) },
        LinkProbe { is_symlink: true, target: Some("/other".to_string()) },
        LinkProbe { is_symlink: true, target: None },
        LinkProbe { is_symlink: false, target: None },
        LinkProbe { is_symlink: false, target: None },
    ];
    assert_eq!(Cli::broken_links(&plan, &probes), vec!["/h/b", "/h/c", "/h/d", "/h/e"]);
}

#[test]
fn cli_upgrade_skip_reasons() {
    assert_eq!(Cli::upgrade_skip(false, true), Some(UpgradeSkip::NotInIndex));
    assert_eq!(Cli::upgrade_skip(true, false), Some(UpgradeSkip::NotInstalled));
    assert_eq!(Cli::upgrade_skip(true, true), None);
}
