use riceforge::models::{Rice, WindowManager};
use riceforge::registry::{extension, with_forward_slashes, Registry, RiceToml, ShotFile};

fn valid_toml() -> RiceToml {
    RiceToml {
        id: "catppuccin-hypr".to_string(),
        name: "Catppuccin Hypr".to_string(),
        author: "someone".to_string(),
        description: "A soft pastel Hyprland setup with waybar.".to_string(),
        wm: "Hyprland".to_string(),
        theme: "catppuccin".to_string(),
        fonts: vec!["JetBrains Mono".to_string()],
        dependencies: vec!["waybar".to_string()],
        repo_url: "https://github.com/someone/catppuccin-hypr".to_string(),
        screenshots: vec![],
    }
}

fn rice(id: &str, stars: u32) -> Rice {
    let mut r = Registry::rice_from_toml(valid_toml(), vec![]);
    r.id = id.to_string();
    r.stars = stars;
    r
}

#[test]
fn registry_valid_toml_has_no_errors() {
    assert!(Registry::validate(&valid_toml()).is_empty());
}

#[test]
fn registry_reports_every_problem_in_order() {
    let t = RiceToml {
        id: "bad id!".to_string(),
        name: String::new(),
        author: String::new(),
        description: "short".to_string(),
        wm: "dwm".to_string(),
        theme: String::new(),
        fonts: vec![],
        dependencies: vec![],
        repo_url: "http://gitlab.com/x".to_string(),
        screenshots: vec![],
    };
    assert_eq!(
        Registry::validate(&t),
        vec![
            "id must be non-empty and contain no spaces",
            "id must only contain alphanumeric characters, hyphens and underscores",
            "name is required",
            "author is required",
            "description must be at least 20 characters",
            "repo_url must be a GitHub HTTPS URL",
            "wm 'dwm' is not allowed; valid values: hyprland, sway, i3, bspwm, qtile, xmonad, openbox",
            "theme is required",
        ]
    );
}

#[test]
fn registry_empty_id_and_missing_wm() {
    let mut t = valid_toml();
    t.id = String::new();
    t.wm = String::new();
    assert_eq!(Registry::validate(&t), vec!["id must be non-empty and contain no spaces", "wm is required"]);
}

#[test]
fn registry_description_length_counts_characters() {
    let mut t = valid_toml();
    t.description = "é".repeat(10);
    assert_eq!(Registry::validate(&t), vec!["description must be at least 20 characters"]);
    t.description = "ж".repeat(20);
    assert!(Registry::validate(&t).is_empty());
    t.description = "é".repeat(300);
    assert!(Registry::validate(&t).is_empty());
    t.description = "x".repeat(301);
    assert_eq!(Registry::validate(&t), vec!["description must be at most 300 characters"]);
}

#[test]
fn registry_wm_is_checked_ignoring_case() {
    let mut t = valid_toml();
    t.wm = "XMONAD".to_string();
    assert!(Registry::validate(&t).is_empty());
}

#[test]
fn registry_unicode_letters_are_allowed_in_ids() {
    let mut t = valid_toml();
    t.id = "ñandú_rice-2".to_string();
    assert!(Registry::validate(&t).is_empty());
}

#[test]
fn registry_rice_from_toml_parses_wm() {
    let r = Registry::rice_from_toml(valid_toml(), vec!["s.png".to_string()]);
    assert_eq!(r.wm, WindowManager::Hyprland);
    assert_eq!(r.stars, 0);
    assert_eq!(r.screenshots, vec!["s.png"]);
    assert!(r.commit_hash.is_none());
    let mut t = valid_toml();
    t.wm = "dwm".to_string();
    assert_eq!(Registry::rice_from_toml(t, vec![]).wm, WindowManager::Unknown);
}

#[test]
fn registry_sort_by_stars_then_id() {
    let sorted = Registry::sort_rices(vec![rice("b", 5), rice("a", 5), rice("z", 9), rice("c", 0)]);
    let ids: Vec<&str> = sorted.iter().map(|r| r.id.as_str()).collect();
    assert_eq!(ids, vec!["z", "a", "b", "c"]);
}

#[test]
fn registry_build_index_is_sorted_version_one() {
    let idx = Registry::build_index(vec![rice("b", 1), rice("a", 2)]).unwrap();
    assert_eq!(idx.version, "1");
    let ids: Vec<&str> = idx.rices.iter().map(|r| r.id.as_str()).collect();
    assert_eq!(ids, vec!["a", "b"]);
}

#[test]
fn registry_extension_of_names() {
    assert_eq!(extension("shot.PNG").as_deref(), Some("PNG"));
    assert_eq!(extension("a.tar.gz").as_deref(), Some("gz"));
    assert_eq!(extension(".hidden"), None);
    assert_eq!(extension("noext"), None);
    assert_eq!(extension("trailing."), Some(String::new()));
}

#[test]
fn registry_forward_slashes() {
    assert_eq!(with_forward_slashes("a\\b\\c.png"), "a/b/c.png");
}

#[test]
fn registry_screenshot_urls_sorted_then_declared() {
    let files = vec![
        ShotFile { file_name: "b.png".to_string(), rel: Some("rices/x/screenshots/b.png".to_string()) },
        ShotFile { file_name: "notes.txt".to_string(), rel: Some("rices/x/screenshots/notes.txt".to_string()) },
        ShotFile { file_name: "A.JPG".to_string(), rel: Some("rices\\x\\screenshots\\A.JPG".to_string()) },
        ShotFile { file_name: "c.webp".to_string(), rel: None },
    ];
    let urls = Registry::screenshot_urls("https://cdn", &files, vec!["https://other/d.png".to_string()]);
    assert_eq!(
        urls,
        vec![
            "https://cdn/rices/x/screenshots/A.JPG",
            "https://cdn/rices/x/screenshots/b.png",
            "https://other/d.png",
        ]
    );
}

#[test]
fn registry_sort_strings_by_code_point() {
    let v = vec!["b".to_string(), "B".to_string(), "a".to_string(), "ab".to_string()];
    assert_eq!(Registry::sort_strings(v), vec!["B", "a", "ab", "b"]);
}

#[test]
fn registry_github_api_url() {
    assert_eq!(Registry::github_api_url("https://github.com/u/r/"), "https://api.github.com/repos/u/r");
    assert_eq!(Registry::github_api_url("https://github.com/u/r"), "https://api.github.com/repos/u/r");
    assert_eq!(Registry::github_api_url("https://gitlab.com/u/r//"), "https://gitlab.com/u/r");
}

#[test]
fn registry_stars_keep_low_32_bits() {
    assert_eq!(Registry::stars_from_count(1234), 1234);
    assert_eq!(Registry::stars_from_count((1u64 << 32) + 7), 7);
}

#[test]
fn registry_stars_request_args() {
    let with_token = Registry::stars_request_args("https://api.github.com/repos/u/r", Some("tok"));
    assert_eq!(
        with_token,
        vec![
            "-sf",
            "--connect-timeout",
            "10",
            "-H",
            "Accept: application/vnd.github+json",
            "-H",
            "Authorization: Bearer tok",
            "https://api.github.com/repos/u/r",
        ]
    );
    let without = Registry::stars_request_args("https://api.github.com/repos/u/r", None);
    assert_eq!(without.len(), 6);
    assert_eq!(without[5], "https://api.github.com/repos/u/r");
}

#[test]
fn registry_toml_sources() {
    assert_eq!(Registry::toml_source("/reg/rice-a", true), Some(("/reg/rice-a/rice.toml".to_string(), true)));
    assert_eq!(Registry::toml_source("/reg/b.toml", false), Some(("/reg/b.toml".to_string(), false)));
    assert_eq!(Registry::toml_source("/reg/notes.md", false), None);
    assert_eq!(Registry::toml_source("/reg/x.TOML", false), None);
}

#[test]
fn registry_validation_summary() {
    assert_eq!(Registry::validation_summary(3), "3 validation errors");
    assert_eq!(Registry::validation_summary(12), "12 validation errors");
}

#[test]
fn registry_build_index_at_stamps_time() {
    let t = riceforge::models::Timestamp { secs: 5, nanos: 0 };
    let idx = Registry::build_index_at(vec![rice("b", 1)], t);
    assert_eq!(idx.updated_at, t);
    assert_eq!(idx.rices.len(), 1);
}
