use riceforge::deploy::{is_excluded_at_root, DeployEntry, DeployManager};
use riceforge::error::RiceForgeError;
use riceforge::models::{DeployPlan, Rice, WindowManager};

fn entry(path: &str, is_dir: bool, dest_exists: bool, dest_is_symlink: bool) -> DeployEntry {
    DeployEntry { path: path.to_string(), is_dir, dest_exists, dest_is_symlink }
}

fn make_rice(id: &str) -> Rice {
    Rice {
        id: id.to_string(),
        name: "Test".to_string(),
        author: "tester".to_string(),
        description: "A test rice for deployment checks.".to_string(),
        wm: WindowManager::Hyprland,
        theme: "nord".to_string(),
        fonts: vec![],
        dependencies: vec![],
        repo_url: format!("https://github.com/tester/{id}"),
        screenshots: vec![],
        stars: 0,
        commit_hash: None,
        updated_at: None,
    }
}

fn file_name(p: &str) -> &str {
    p.rsplit('/').next().unwrap()
}

#[test]
fn deploy_plan_excludes_root_files() {
    let dir = "/data/riceforge/rices/plan-rice";
    let entries = vec![
        entry("/data/riceforge/rices/plan-rice/rice.toml", false, false, false),
        entry("/data/riceforge/rices/plan-rice/README.md", false, false, false),
        entry("/data/riceforge/rices/plan-rice/.gitignore", false, false, false),
        entry("/data/riceforge/rices/plan-rice/.config", true, true, false),
        entry("/data/riceforge/rices/plan-rice/.config/hypr", true, false, false),
        entry("/data/riceforge/rices/plan-rice/.config/hypr/hyprland.conf", false, false, false),
    ];
    let plan = DeployManager::plan(dir, "/home/u", &entries).unwrap();
    let names: Vec<&str> = plan.links.iter().map(|(src, _)| file_name(src)).collect();
    assert!(names.iter().any(|n| *n == "hyprland.conf"));
    assert!(!names.iter().any(|n| *n == "rice.toml"));
    assert!(!names.iter().any(|n| *n == "README.md"));
    assert!(!names.iter().any(|n| *n == ".gitignore"));
}

#[test]
fn deploy_plan_links_into_home_and_backs_up_real_files() {
    let dir = "/r/x";
    let entries = vec![
        entry("/r/x/.config/kitty/kitty.conf", false, true, false),
        entry("/r/x/.config/waybar/config", false, true, true),
        entry("/r/x/.zshrc", false, false, false),
        entry("/r/x/screenshots/one.png", false, false, false),
        entry("/r/x/.git/HEAD", false, false, false),
    ];
    let plan = DeployManager::plan(dir, "/home/u", &entries).unwrap();
    assert_eq!(
        plan.links,
        vec![
            ("/r/x/.config/kitty/kitty.conf".to_string(), "/home/u/.config/kitty/kitty.conf".to_string()),
            ("/r/x/.config/waybar/config".to_string(), "/home/u/.config/waybar/config".to_string()),
            ("/r/x/.zshrc".to_string(), "/home/u/.zshrc".to_string()),
        ]
    );
    assert_eq!(plan.to_backup, vec!["/home/u/.config/kitty/kitty.conf"]);
}

#[test]
fn deploy_plan_entry_outside_repository_fails() {
    let entries = vec![entry("/elsewhere/f", false, false, false)];
    let r = DeployManager::plan("/r/x", "/home/u", &entries);
    assert_eq!(r.err(), Some(RiceForgeError::Deploy("path strip failed".to_string())));
}

#[test]
fn deploy_excluded_names() {
    for n in ["rice.toml", "pipeline.toml", "README", "LICENSE.txt", ".git", "screenshots", "install.sh"] {
        assert!(is_excluded_at_root(n), "{n}");
    }
    for n in [".config", "readme.md", "rice.tom", ""] {
        assert!(!is_excluded_at_root(n), "{n}");
    }
}

#[test]
fn deploy_prepare_refuses_uncloned_rice() {
    let r = DeployManager::prepare(&make_rice("ghost"), false);
    assert_eq!(r.err(), Some(RiceForgeError::Deploy("rice 'ghost' has not been cloned".to_string())));
}

#[test]
fn deploy_destination_maps_below_home() {
    assert_eq!(DeployManager::destination("/r/x", "/home/u", "/r/x/.config/a").as_deref(), Some("/home/u/.config/a"));
    assert_eq!(DeployManager::destination("/r/x", "/home/u", "/r/xy/a"), None);
}

#[test]
fn deploy_rice_dir_is_under_rices() {
    assert!(DeployManager::rice_dir(&make_rice("abc")).ends_with("riceforge/rices/abc"));
}

#[test]
fn deploy_apply_steps_create_parent_and_replace() {
    let plan = DeployPlan {
        links: vec![
            ("/r/x/.config/kitty/kitty.conf".to_string(), "/home/u/.config/kitty/kitty.conf".to_string()),
            ("/r/x/.zshrc".to_string(), "/home/u/.zshrc".to_string()),
        ],
        to_backup: vec![],
    };
    let steps = DeployManager::apply(&plan, true, &vec![true, false]).unwrap();
    assert_eq!(steps.len(), 2);
    assert_eq!(steps[0].parent.as_deref(), Some("/home/u/.config/kitty"));
    assert!(steps[0].clear);
    assert_eq!(steps[0].src, "/r/x/.config/kitty/kitty.conf");
    assert_eq!(steps[0].dest, "/home/u/.config/kitty/kitty.conf");
    assert_eq!(steps[1].parent.as_deref(), Some("/home/u"));
    assert!(!steps[1].clear);
}

#[test]
fn deploy_apply_needs_unix() {
    let plan = DeployPlan { links: vec![], to_backup: vec![] };
    assert_eq!(DeployManager::apply(&plan, false, &vec![]).err(), Some(RiceForgeError::UnsupportedPlatform));
}

#[test]
fn deploy_link_error_message() {
    let e = DeployManager::link_error("/r/a", "/home/u/a", "denied");
    assert_eq!(e, RiceForgeError::Deploy("symlink /r/a -> /home/u/a: denied".to_string()));
}

#[test]
fn deploy_remove_takes_only_symlinks() {
    let plan = DeployPlan {
        links: vec![
            ("/r/a".to_string(), "/h/a".to_string()),
            ("/r/b".to_string(), "/h/b".to_string()),
            ("/r/c".to_string(), "/h/c".to_string()),
        ],
        to_backup: vec![],
    };
    assert_eq!(DeployManager::remove(&plan, &vec![true, false, true]), vec!["/h/a", "/h/c"]);
}

#[test]
fn deploy_remove_after_apply_removes_every_link() {
    let entries = vec![entry("/r/x/.config/wm/config", false, false, false), entry("/r/x/.xinitrc", false, false, false)];
    let plan = DeployManager::plan("/r/x", "/home/u", &entries).unwrap();
    let all_links = vec![true; plan.links.len()];
    let removed = DeployManager::remove(&plan, &all_links);
    assert_eq!(removed, vec!["/home/u/.config/wm/config", "/home/u/.xinitrc"]);
}

#[test]
fn deploy_apply_creates_symlinks() {
    let dir = "/data/riceforge/rices/apply-rice";
    let entries = vec![
        entry("/data/riceforge/rices/apply-rice/.config", true, true, false),
        entry("/data/riceforge/rices/apply-rice/.config/kitty", true, false, false),
        entry("/data/riceforge/rices/apply-rice/.config/kitty/kitty.conf", false, false, false),
    ];
    let plan = DeployManager::plan(dir, "/tmp/home", &entries).unwrap();
    assert_eq!(plan.links.len(), 1);

    let steps = DeployManager::apply(&plan, true, &vec![false]).unwrap();
    assert_eq!(steps[0].dest, plan.links[0].1);
    assert_eq!(steps[0].src, plan.links[0].0);
    assert_eq!(steps[0].parent.as_deref(), Some("/tmp/home/.config/kitty"));
}

#[test]
fn deploy_remove_deletes_symlinks() {
    let dir = "/data/riceforge/rices/remove-rice";
    let entries = vec![entry("/data/riceforge/rices/remove-rice/.config/wm/config", false, false, false)];
    let plan = DeployManager::plan(dir, "/tmp/home", &entries).unwrap();
    let dest = plan.links[0].1.clone();
    let removed = DeployManager::remove(&plan, &vec![true]);
    assert_eq!(removed.len(), 1);
    assert_eq!(removed[0], dest);
}

#[test]
fn deploy_rice_dir_in_rices_dir() {
    assert_eq!(DeployManager::rice_dir_in("/d/rices", &make_rice("abc")), "/d/rices/abc");
}
