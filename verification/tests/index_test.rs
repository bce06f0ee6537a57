use riceforge::index::IndexManager;
use riceforge::models::{Index, Rice, Timestamp, WindowManager};

fn rice(id: &str, name: &str, description: &str, wm: WindowManager, theme: &str) -> Rice {
    Rice {
        id: id.to_string(),
        name: name.to_string(),
        author: "testuser".to_string(),
        description: description.to_string(),
        wm,
        theme: theme.to_string(),
        fonts: vec!["JetBrains Mono".to_string()],
        dependencies: vec!["waybar".to_string()],
        repo_url: format!("https://github.com/testuser/{id}"),
        screenshots: vec![],
        stars: 0,
        commit_hash: None,
        updated_at: None,
    }
}

fn fixture_index() -> Index {
    Index {
        version: "1".to_string(),
        updated_at: Timestamp { secs: 1_767_225_600, nanos: 0 },
        rices: vec![
            rice(
                "test-rice-minimal",
                "Test Rice Minimal",
                "A minimal Hyprland setup used in tests.",
                WindowManager::Hyprland,
                "catppuccin",
            ),
            rice(
                "test-rice-full",
                "Test Rice Full",
                "A complete Sway setup with every field filled in.",
                WindowManager::Sway,
                "nord",
            ),
        ],
    }
}

#[test]
fn find_returns_correct_rice() {
    let index = fixture_index();
    let rice = IndexManager::find(&index, "test-rice-minimal").unwrap();
    assert_eq!(rice.id, "test-rice-minimal");
    assert_eq!(rice.author, "testuser");
}

#[test]
fn find_returns_none_for_unknown_id() {
    let index = fixture_index();
    assert!(IndexManager::find(&index, "does-not-exist").is_none());
}

#[test]
fn search_empty_query_returns_all() {
    let index = fixture_index();
    let results = IndexManager::search(&index, "", None, None);
    assert_eq!(results.len(), index.rices.len());
}

#[test]
fn search_by_id_prefix() {
    let index = fixture_index();
    let results = IndexManager::search(&index, "test-rice-full", None, None);
    assert_eq!(results.len(), 1);
    assert_eq!(results[0].id, "test-rice-full");
}

#[test]
fn search_by_author() {
    let index = fixture_index();
    let results = IndexManager::search(&index, "testuser", None, None);
    assert_eq!(results.len(), index.rices.len());
}

#[test]
fn search_by_wm_filter() {
    let index = fixture_index();
    let wm = WindowManager::Sway;
    let results = IndexManager::search(&index, "", Some(&wm), None);
    assert_eq!(results.len(), 1);
    assert_eq!(results[0].id, "test-rice-full");
}

#[test]
fn search_by_theme_filter() {
    let index = fixture_index();
    let results = IndexManager::search(&index, "", None, Some("nord"));
    assert_eq!(results.len(), 1);
    assert_eq!(results[0].theme, "nord");
}

#[test]
fn search_no_match_returns_empty() {
    let index = fixture_index();
    let results = IndexManager::search(&index, "zzznomatch", None, None);
    assert!(results.is_empty());
}

#[test]
fn search_combined_wm_and_query() {
    let index = fixture_index();
    let wm = WindowManager::Hyprland;
    let results = IndexManager::search(&index, "minimal", Some(&wm), None);
    assert_eq!(results.len(), 1);
    assert_eq!(results[0].id, "test-rice-minimal");
}

#[test]
fn search_ignores_case_of_query_and_theme() {
    let index = fixture_index();
    let results = IndexManager::search(&index, "TEST-RICE-FULL", None, None);
    assert_eq!(results.len(), 1);
    assert_eq!(results[0].id, "test-rice-full");
    let results = IndexManager::search(&index, "", None, Some("NORD"));
    assert_eq!(results.len(), 1);
    let results = IndexManager::search(&index, "complete sway", None, None);
    assert_eq!(results.len(), 1);
}

#[test]
fn search_keeps_index_order_and_checks_every_filter() {
    let index = fixture_index();
    let results = IndexManager::search(&index, "test", None, None);
    let ids: Vec<&str> = results.iter().map(|r| r.id.as_str()).collect();
    assert_eq!(ids, vec!["test-rice-minimal", "test-rice-full"]);
    let wm = WindowManager::Sway;
    let results = IndexManager::search(&index, "minimal", Some(&wm), None);
    assert!(results.is_empty());
    let results = IndexManager::search(&index, "", Some(&wm), Some("catppuccin"));
    assert!(results.is_empty());
}

#[test]
fn find_returns_first_of_duplicates() {
    let mut index = fixture_index();
    let mut dup = index.rices[1].clone();
    dup.id = "test-rice-minimal".to_string();
    dup.name = "Second".to_string();
    index.rices.push(dup);
    let found = IndexManager::find(&index, "test-rice-minimal").unwrap();
    assert_eq!(found.name, "Test Rice Minimal");
}
