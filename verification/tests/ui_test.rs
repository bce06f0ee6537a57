use riceforge::models::{DeployPlan, InstalledRice, Timestamp, WindowManager};
use riceforge::ui::{
    browse_filter, decimal_text, hero_style, listed_links, mock_rices, pacman_command, plan_preview, short_hash,
    thumbnail_gradient, wm_color, DetailAction, DetailEvent, DetailState, InstallState, RemoveState, RowAction,
    RowEvent, RowOp, RowState, UpdateStatus,
};

#[test]
fn ui_wm_colors() {
    assert_eq!(wm_color(&WindowManager::Hyprland), "#a855f7");
    assert_eq!(wm_color(&WindowManager::Sway), "#3b82f6");
    assert_eq!(wm_color(&WindowManager::Unknown), "#71717a");
    assert_eq!(thumbnail_gradient(&WindowManager::I3), "linear-gradient(135deg, #0d1f0d 0%, #143314 100%)");
}

#[test]
fn ui_short_hash() {
    assert_eq!(short_hash("0123456789abcdef"), "01234567");
    assert_eq!(short_hash("abc"), "abc");
    assert_eq!(short_hash("0123456é89"), "0123456é89");
}

#[test]
fn ui_mock_catalogue() {
    let rices = mock_rices();
    assert_eq!(rices.len(), 6);
    assert_eq!(rices[2].id, "gruvbox-i3");
    assert_eq!(rices[2].stars, 521);
    assert_eq!(rices[4].wm, WindowManager::Bspwm);
}

#[test]
fn ui_browse_filter_matches_name_author_theme() {
    let rices = mock_rices();
    assert_eq!(browse_filter(&rices, "").len(), 6);
    let ids: Vec<String> = browse_filter(&rices, "HYPRLAND").into_iter().map(|r| r.id).collect();
    assert_eq!(ids, vec!["catppuccin-hyprland"]);
    let by_theme: Vec<String> = browse_filter(&rices, "Night").into_iter().map(|r| r.id).collect();
    assert_eq!(by_theme, vec!["tokyo-night-hyprland"]);
    let by_author: Vec<String> = browse_filter(&rices, "vampi").into_iter().map(|r| r.id).collect();
    assert_eq!(by_author, vec!["dracula-bspwm"]);
    assert!(browse_filter(&rices, "zzz").is_empty());
}

#[test]
fn ui_detail_install_flow() {
    let s = DetailState::new(false);
    assert!(s.shows_install());
    assert!(!s.is_busy());
    let (s, a) = s.step(DetailEvent::InstallClicked);
    assert_eq!(a, DetailAction::Plan);
    assert!(s.is_busy());
    let (s, a) = s.step(DetailEvent::PlanReady {
        links: vec!["/h/a".to_string()],
        to_backup: vec![],
        has_pipeline: false,
        missing_pkgs: vec![],
    });
    assert_eq!(a, DetailAction::Nothing);
    assert!(matches!(s.install, InstallState::ConfirmPlan { .. }));
    let (s, a) = s.step(DetailEvent::ConfirmInstall);
    assert_eq!(a, DetailAction::Apply);
    let (s, a) = s.step(DetailEvent::ApplyDone("0123456789".to_string()));
    assert_eq!(a, DetailAction::Nothing);
    assert!(s.installed);
    assert_eq!(s.install, InstallState::Done("01234567".to_string()));
    assert!(!s.shows_install());
    assert!(s.shows_remove());
}

#[test]
fn ui_detail_remove_flow() {
    let s = DetailState::new(true);
    let (s, a) = s.step(DetailEvent::RemoveClicked);
    assert_eq!(a, DetailAction::Nothing);
    assert_eq!(s.remove, RemoveState::Confirm);
    assert!(!s.shows_remove());
    let (s, _) = s.step(DetailEvent::CancelRemove);
    assert_eq!(s.remove, RemoveState::Idle);
    let (s, _) = s.step(DetailEvent::RemoveClicked);
    let (s, a) = s.step(DetailEvent::ConfirmRemove);
    assert_eq!(a, DetailAction::Remove);
    assert!(s.is_busy());
    let (s, _) = s.step(DetailEvent::RemoveDone);
    assert!(!s.installed);
    assert_eq!(s.remove, RemoveState::Done);
}

#[test]
fn ui_detail_errors() {
    let (s, _) = DetailState::new(false).step(DetailEvent::PlanFailed("boom".to_string()));
    assert_eq!(s.install, InstallState::Error("boom".to_string()));
    let (s, _) = DetailState::new(true).step(DetailEvent::RemoveFailed("no".to_string()));
    assert_eq!(s.remove, RemoveState::Error("no".to_string()));
    assert!(s.shows_remove());
}

#[test]
fn ui_plan_preview_and_listing() {
    let plan = DeployPlan {
        links: vec![("/r/a".to_string(), "/h/a".to_string()), ("/r/b".to_string(), "/h/b".to_string())],
        to_backup: vec!["/h/a".to_string()],
    };
    let (dests, backups) = plan_preview(&plan);
    assert_eq!(dests, vec!["/h/a", "/h/b"]);
    assert_eq!(backups, vec!["/h/a"]);
    assert_eq!(listed_links(5), (5, 0));
    assert_eq!(listed_links(12), (12, 0));
    assert_eq!(listed_links(20), (12, 8));
}

#[test]
fn ui_pacman_command_and_hero() {
    assert_eq!(pacman_command(&["waybar".to_string(), "rofi".to_string()]), "sudo pacman -S --needed waybar rofi");
    let mut r = mock_rices().remove(0);
    assert_eq!(hero_style(&r), "background: linear-gradient(135deg, #180d2e 0%, #2d1654 100%);");
    r.screenshots = vec!["https://x/s.png".to_string()];
    assert_eq!(
        hero_style(&r),
        "background: linear-gradient(135deg, #180d2e 0%, #2d1654 100%); background-image: url('https://x/s.png'); background-size: cover; background-position: center;"
    );
}

#[test]
fn ui_row_flow() {
    let s = RowState::new();
    assert!(s.shows_actions());
    let (s, a) = s.step(RowEvent::UpgradeClicked);
    assert_eq!(a, RowAction::Upgrade);
    assert!(!s.shows_actions());
    let (s, _) = s.step(RowEvent::UpgradeDone("fedcba9876543210".to_string()));
    assert_eq!(s.op, RowOp::UpgradeDone("fedcba98".to_string()));
    assert!(s.shows_actions());
    let (s, a) = s.step(RowEvent::PurgeClicked);
    assert_eq!(a, RowAction::Nothing);
    assert!(s.confirm_purge);
    assert!(!s.shows_actions());
    let (s, a) = s.step(RowEvent::PurgeConfirmed);
    assert_eq!(a, RowAction::Purge);
    assert_eq!(s.op, RowOp::Removing);
    let (_, a) = s.step(RowEvent::Removed);
    assert_eq!(a, RowAction::Refresh);
}

#[test]
fn ui_row_failure_and_cancel() {
    let (s, _) = RowState::new().step(RowEvent::PurgeClicked);
    let (s, _) = s.step(RowEvent::PurgeCancelled);
    assert!(!s.confirm_purge);
    let (s, a) = s.step(RowEvent::RemoveClicked);
    assert_eq!(a, RowAction::Remove);
    let (s, _) = s.step(RowEvent::Failed("x".to_string()));
    assert_eq!(s.op, RowOp::Error("x".to_string()));
}

#[test]
fn ui_update_status_and_decimal() {
    assert!(UpdateStatus::start().is_running());
    assert_eq!(UpdateStatus::finished(42), UpdateStatus::Done("42 rices indexed".to_string()));
    assert!(!UpdateStatus::failed("e".to_string()).is_running());
    assert_eq!(decimal_text(0), "0");
    assert_eq!(decimal_text(1907), "1907");
}

#[test]
fn ui_install_command() {
    let r = mock_rices().remove(1);
    assert_eq!(riceforge::ui::install_command(&r), "riceforge install nord-sway");
}

#[test]
fn ui_row_info_text() {
    let e = InstalledRice {
        rice_id: "rice-a".to_string(),
        commit_hash: "hash1".to_string(),
        installed_at: Timestamp { secs: 1_767_225_600, nanos: 0 },
        backup_id: None,
    };
    let info = riceforge::ui::row_info(&e, None);
    assert_eq!(info.display_name, "rice-a");
    assert_eq!(info.short_hash, "hash1");
    assert_eq!(info.date_label.as_deref(), Some("installed 2026-01-01"));
    assert!(!info.backup_available);
    let mut e2 = e.clone();
    e2.commit_hash = "0123456789abcdef0123456789abcdef01234567".to_string();
    e2.backup_id = Some("b".to_string());
    let info = riceforge::ui::row_info(&e2, Some("Rice A".to_string()));
    assert_eq!(info.display_name, "Rice A");
    assert_eq!(info.short_hash, "01234567");
    assert!(info.backup_available);
}
