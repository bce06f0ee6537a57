use riceforge::backup::{BackupManager, FileProbe};
use riceforge::error::RiceForgeError;
use riceforge::models::{BackupEntry, Timestamp};

fn entry(id: &str, secs: i64) -> BackupEntry {
    BackupEntry {
        id: id.to_string(),
        rice_id: None,
        created_at: Timestamp { secs, nanos: 0 },
        files: vec![],
    }
}

fn probe(path: &str, is_symlink: bool, exists: bool) -> FileProbe {
    FileProbe { path: path.to_string(), is_symlink, exists }
}

fn ids(entries: &[BackupEntry]) -> Vec<String> {
    entries.iter().map(|e| e.id.clone()).collect()
}

#[test]
fn backup_list_is_newest_first() {
    let listed = BackupManager::list(vec![entry("a", 100), entry("c", 300), entry("b", 200)]);
    assert_eq!(ids(&listed), vec!["c", "b", "a"]);
}

#[test]
fn backup_list_keeps_order_of_equal_times() {
    let listed = BackupManager::list(vec![entry("x", 5), entry("old", 1), entry("y", 5), entry("z", 5)]);
    assert_eq!(ids(&listed), vec!["x", "y", "z", "old"]);
}

#[test]
fn backup_list_orders_by_nanoseconds_within_a_second() {
    let mut early = entry("early", 10);
    early.created_at.nanos = 1;
    let mut late = entry("late", 10);
    late.created_at.nanos = 2;
    let listed = BackupManager::list(vec![early, late]);
    assert_eq!(ids(&listed), vec!["late", "early"]);
}

#[test]
fn backup_clean_keeps_the_newest() {
    let removed = BackupManager::clean(vec![entry("1", 1), entry("3", 3), entry("2", 2)], 1);
    assert_eq!(removed, vec!["2", "1"]);
}

#[test]
fn backup_clean_keep_all_removes_nothing() {
    let removed = BackupManager::clean(vec![entry("1", 1), entry("2", 2)], 2);
    assert!(removed.is_empty());
}

#[test]
fn backup_clean_keep_zero_removes_everything() {
    let removed = BackupManager::clean(vec![entry("1", 1), entry("2", 2)], 0);
    assert_eq!(removed, vec!["2", "1"]);
}

#[test]
fn backup_plan_copies_files_under_config() {
    let files = vec![
        probe("/home/u/.config/alacritty/alacritty.toml", false, true),
        probe("/home/u/.config/linked.conf", true, true),
        probe("/home/u/.config/gone.conf", false, false),
        probe("/home/u/.config/kitty/kitty.conf", false, true),
    ];
    let plan = BackupManager::plan_copies("/home/u/.config", "/b/20260101_000000", &files);
    assert_eq!(
        plan.copies,
        vec![
            (
                "/home/u/.config/alacritty/alacritty.toml".to_string(),
                "/b/20260101_000000/alacritty/alacritty.toml".to_string()
            ),
            ("/home/u/.config/kitty/kitty.conf".to_string(), "/b/20260101_000000/kitty/kitty.conf".to_string()),
        ]
    );
    assert_eq!(plan.recorded, vec!["alacritty/alacritty.toml", "kitty/kitty.conf"]);
    assert!(plan.failure.is_none());
}

#[test]
fn backup_plan_stops_at_file_outside_config() {
    let files = vec![
        probe("/home/u/.config/a.conf", false, true),
        probe("/home/u/.bashrc", false, true),
        probe("/home/u/.config/b.conf", false, true),
    ];
    let plan = BackupManager::plan_copies("/home/u/.config", "/b/x", &files);
    assert_eq!(plan.recorded, vec!["a.conf"]);
    assert_eq!(plan.copies.len(), 1);
    assert_eq!(
        plan.failure,
        Some(RiceForgeError::Backup("file is outside ~/.config: /home/u/.bashrc".to_string()))
    );
}

#[test]
fn backup_finish_records_rice_and_files() {
    let e = BackupManager::finish("20260101_120000".to_string(), Some("rice-a"), vec!["kitty/kitty.conf".to_string()]).unwrap();
    assert_eq!(e.id, "20260101_120000");
    assert_eq!(e.rice_id.as_deref(), Some("rice-a"));
    assert_eq!(e.files, vec!["kitty/kitty.conf"]);
}

#[test]
fn backup_begin_gives_compact_timestamp_id() {
    let (id, dir) = BackupManager::begin().unwrap();
    assert_eq!(id.len(), 15);
    assert_eq!(&id[8..9], "_");
    assert!(id.chars().enumerate().all(|(i, c)| i == 8 || c.is_ascii_digit()));
    assert!(dir.ends_with(&format!("riceforge/backups/{id}")));
}

#[test]
fn backup_restore_plan_skips_meta_and_maps_back() {
    let files = vec![
        "/b/id/meta.json".to_string(),
        "/b/id/alacritty/alacritty.toml".to_string(),
        "/b/id/kitty/kitty.conf".to_string(),
    ];
    let plan = BackupManager::restore_plan("/home/u/.config", "/b/id", &files);
    assert_eq!(
        plan.copies,
        vec![
            ("/b/id/alacritty/alacritty.toml".to_string(), "/home/u/.config/alacritty/alacritty.toml".to_string()),
            ("/b/id/kitty/kitty.conf".to_string(), "/home/u/.config/kitty/kitty.conf".to_string()),
        ]
    );
    assert!(plan.failure.is_none());
}

#[test]
fn backup_restore_plan_stops_outside_backup_dir() {
    let files = vec!["/elsewhere/x.conf".to_string(), "/b/id/y.conf".to_string()];
    let plan = BackupManager::restore_plan("/home/u/.config", "/b/id", &files);
    assert!(plan.copies.is_empty());
    assert_eq!(plan.failure, Some(RiceForgeError::Backup("path strip failed".to_string())));
}

#[test]
fn backup_restore_missing_backup_is_no_backup() {
    let r = BackupManager::restore("20250101_000000", false, "/b/20250101_000000", &vec![]);
    assert_eq!(r.err(), Some(RiceForgeError::NoBackup("20250101_000000".to_string())));
}

#[test]
fn backup_then_restore_returns_files_to_their_place() {
    let files = vec![probe("/home/u/.config/hypr/hyprland.conf", false, true), probe("/home/u/.config/waybar/config", false, true)];
    let plan = BackupManager::plan_copies("/home/u/.config", "/b/id", &files);
    let stored: Vec<String> = plan.copies.iter().map(|(_, d)| d.clone()).collect();
    let back = BackupManager::restore_plan("/home/u/.config", "/b/id", &stored);
    let restored: Vec<(String, String)> = back.copies.iter().map(|(s, d)| (d.clone(), s.clone())).collect();
    assert_eq!(restored, plan.copies);
}

#[test]
fn backup_dir_is_under_backups() {
    assert!(BackupManager::backup_dir("abc").ends_with("riceforge/backups/abc"));
}

#[test]
fn backup_create_and_list() {
    let files = vec![probe("/tmp/home/.config/alacritty/alacritty.toml", false, true)];
    let plan = BackupManager::plan_copies("/tmp/home/.config", "/tmp/data/riceforge/backups/20260101_101010", &files);
    let entry = BackupManager::finish("20260101_101010".to_string(), Some("rice-a"), plan.recorded).unwrap();
    assert_eq!(entry.rice_id.as_deref(), Some("rice-a"));
    assert_eq!(entry.files.len(), 1);

    let backups = BackupManager::list(vec![entry.clone()]);
    assert_eq!(backups.len(), 1);
    assert_eq!(backups[0].id, entry.id);
}

#[test]
fn backup_clean_removes_old_entries() {
    let entries = vec![entry("20260101_000000", 0), entry("20260101_000001", 1), entry("20260101_000002", 2)];
    let removed = BackupManager::clean(entries.clone(), 1);
    assert_eq!(removed.len(), 2);

    let remaining: Vec<BackupEntry> = entries.into_iter().filter(|e| !removed.contains(&e.id)).collect();
    assert_eq!(BackupManager::list(remaining).len(), 1);
}

#[test]
fn backup_restore_keeps_nested_meta_json() {
    let files = vec!["/b/id/meta.json".to_string(), "/b/id/app/meta.json".to_string()];
    let plan = BackupManager::restore_plan("/home/u/.config", "/b/id", &files);
    assert_eq!(plan.copies, vec![("/b/id/app/meta.json".to_string(), "/home/u/.config/app/meta.json".to_string())]);
    assert!(plan.failure.is_none());
}

#[test]
fn backup_clean_keeping_more_than_exist_removes_nothing() {
    assert!(BackupManager::clean(vec![entry("1", 1), entry("2", 2)], 5).is_empty());
    assert!(BackupManager::clean(vec![], 5).is_empty());
}

#[test]
fn backup_begin_at_renders_the_time() {
    // 2026-01-02 03:04:05 UTC
    let (id, dir) = BackupManager::begin_at(Timestamp { secs: 1_767_323_045, nanos: 0 }, "/d/backups").unwrap();
    assert_eq!(id, "20260102_030405");
    assert_eq!(dir, "/d/backups/20260102_030405");
    assert_eq!(
        BackupManager::begin_at(Timestamp { secs: 0, nanos: 2_000_000_000 }, "/d/backups").err(),
        Some(RiceForgeError::Backup("clock reading out of range".to_string()))
    );
}

#[test]
fn backup_finish_at_stamps_the_given_time() {
    let t = Timestamp { secs: 42, nanos: 7 };
    let e = BackupManager::finish_at("id".to_string(), None, vec![], t);
    assert_eq!(e.created_at, t);
    assert_eq!(e.rice_id, None);
    assert_eq!(BackupManager::backup_dir_in("/d/backups", "id"), "/d/backups/id");
}
