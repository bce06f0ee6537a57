use riceforge::error::RiceForgeError;
use riceforge::installed::InstalledManager;
use riceforge::models::Timestamp;

#[test]
fn installed_manager_add_list_remove() {
    let mut db = InstalledManager::new(Vec::new());

    assert!(!db.is_installed("rice-a"));

    db.add("rice-a", "hash1", None).unwrap();
    assert!(db.is_installed("rice-a"));

    let list = db.list();
    assert_eq!(list.len(), 1);
    assert_eq!(list[0].rice_id, "rice-a");
    assert_eq!(list[0].commit_hash, "hash1");

    db.add("rice-b", "hash2", Some("backup-1".into())).unwrap();
    let list = db.list();
    assert_eq!(list.len(), 2);

    let entry = db.get("rice-b").unwrap();
    assert_eq!(entry.backup_id.as_deref(), Some("backup-1"));

    db.remove("rice-a");
    assert!(!db.is_installed("rice-a"));
    assert!(db.is_installed("rice-b"));
}

#[test]
fn installed_manager_add_overwrites_existing() {
    let mut db = InstalledManager::new(Vec::new());

    db.add("rice-x", "hash-old", None).unwrap();
    db.add("rice-x", "hash-new", None).unwrap();

    let list = db.list();
    assert_eq!(list.len(), 1);
    assert_eq!(list[0].commit_hash, "hash-new");
}

#[test]
fn installed_manager_remove_nonexistent_returns_none() {
    let mut db = InstalledManager::new(Vec::new());

    let result = db.remove("no-such-rice");
    assert!(result.is_none());
}

#[test]
fn get_missing_rice_is_not_installed_error() {
    let db = InstalledManager::new(Vec::new());
    assert_eq!(db.get("ghost"), Err(RiceForgeError::NotInstalled("ghost".to_string())));
    assert_eq!(db.get("ghost").unwrap_err().message(), "not installed: ghost");
}

#[test]
fn add_at_moves_rice_to_the_end_and_keeps_others() {
    let mut db = InstalledManager::new(Vec::new());
    let t = Timestamp { secs: 100, nanos: 0 };
    db.add_at("a", "h1", None, t);
    db.add_at("b", "h2", None, t);
    db.add_at("a", "h3", Some("bk".into()), Timestamp { secs: 200, nanos: 1 });
    let list = db.list();
    assert_eq!(list.len(), 2);
    assert_eq!(list[0].rice_id, "b");
    assert_eq!(list[1].rice_id, "a");
    assert_eq!(list[1].commit_hash, "h3");
    assert_eq!(list[1].installed_at, Timestamp { secs: 200, nanos: 1 });
    assert_eq!(db.get("b").unwrap().commit_hash, "h2");
}

#[test]
fn remove_returns_record_and_undoes_add() {
    let mut db = InstalledManager::new(Vec::new());
    let t = Timestamp { secs: 5, nanos: 0 };
    db.add_at("a", "h1", None, t);
    let before = db.list();
    db.add_at("b", "h2", None, t);
    let removed = db.remove("b").unwrap();
    assert_eq!(removed.rice_id, "b");
    assert_eq!(db.list(), before);
}

#[test]
fn remove_takes_only_first_duplicate() {
    let t = Timestamp { secs: 1, nanos: 0 };
    let mut db = InstalledManager::new(Vec::new());
    db.add_at("x", "h1", None, t);
    let mut entries = db.list();
    let mut second = entries[0].clone();
    second.commit_hash = "h2".to_string();
    entries.push(second);
    let mut db = InstalledManager::new(entries);
    assert_eq!(db.get("x").unwrap().commit_hash, "h1");
    assert_eq!(db.remove("x").unwrap().commit_hash, "h1");
    assert!(db.is_installed("x"));
    assert_eq!(db.get("x").unwrap().commit_hash, "h2");
}

#[test]
fn backup_of_gives_the_installation_backup() {
    let mut db = InstalledManager::new(vec![]);
    db.add("a", "h1", Some("b1".to_string())).unwrap();
    db.add("b", "h2", None).unwrap();
    assert_eq!(db.backup_of("a").as_deref(), Some("b1"));
    assert_eq!(db.backup_of("b"), None);
    assert_eq!(db.backup_of("zzz"), None);
}
