use riceforge::error::RiceForgeError;
use riceforge::git::GitManager;
use riceforge::models::{Rice, WindowManager};

fn make_rice(id: &str) -> Rice {
    Rice {
        id: id.to_string(),
        name: "N".to_string(),
        author: "a".to_string(),
        description: "d".to_string(),
        wm: WindowManager::Sway,
        theme: "t".to_string(),
        fonts: vec![],
        dependencies: vec![],
        repo_url: format!("https://github.com/a/{id}"),
        screenshots: vec![],
        stars: 0,
        commit_hash: None,
        updated_at: None,
    }
}

#[test]
fn git_clones_when_checkout_missing() {
    let cmd = GitManager::clone_or_pull(&make_rice("r1"), "/d/rices/r1", false);
    assert_eq!(cmd.args, vec!["clone", "--depth=1", "--progress", "https://github.com/a/r1", "/d/rices/r1"]);
    assert!(cmd.dir.is_none());
}

#[test]
fn git_pulls_when_checkout_present() {
    let cmd = GitManager::clone_or_pull(&make_rice("r1"), "/d/rices/r1", true);
    assert_eq!(cmd.args, vec!["pull", "--ff-only", "--quiet"]);
    assert_eq!(cmd.dir.as_deref(), Some("/d/rices/r1"));
}

#[test]
fn git_failure_messages() {
    assert_eq!(
        GitManager::sync_failure(&make_rice("r1"), false),
        RiceForgeError::Git("git clone failed for 'r1'".to_string())
    );
    assert_eq!(
        GitManager::sync_failure(&make_rice("r1"), true),
        RiceForgeError::Git("git pull failed — manual resolution needed".to_string())
    );
    assert_eq!(GitManager::launch_error("no such file"), RiceForgeError::Git("git not found: no such file".to_string()));
}

#[test]
fn git_head_hash_is_trimmed_output() {
    let cmd = GitManager::head_command("/d/rices/r1");
    assert_eq!(cmd.args, vec!["rev-parse", "HEAD"]);
    assert_eq!(cmd.dir.as_deref(), Some("/d/rices/r1"));
    let h = GitManager::head_hash(None, true, "  0123456789abcdef\n").unwrap();
    assert_eq!(h, "0123456789abcdef");
}

#[test]
fn git_head_hash_errors() {
    assert_eq!(
        GitManager::head_hash(None, false, "whatever"),
        Err(RiceForgeError::Git("could not read HEAD hash".to_string()))
    );
    assert_eq!(
        GitManager::head_hash(Some("spawn failed".to_string()), true, ""),
        Err(RiceForgeError::Git("spawn failed".to_string()))
    );
}

#[test]
fn git_checkout_dir_and_remove() {
    assert!(GitManager::checkout_dir("r1").ends_with("riceforge/rices/r1"));
    assert!(GitManager::remove("r1", true).unwrap().ends_with("riceforge/rices/r1"));
    assert_eq!(GitManager::remove("r1", false), None);
}

#[test]
fn git_checkout_dir_in_rices_dir() {
    assert_eq!(GitManager::checkout_dir_in("/d/rices", "r1"), "/d/rices/r1");
}
