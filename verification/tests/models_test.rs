use riceforge::models::{Rice, Timestamp, WindowManager};

#[test]
fn wm_display_all_variants() {
    assert_eq!(WindowManager::Hyprland.to_string(), "Hyprland");
    assert_eq!(WindowManager::Sway.to_string(), "Sway");
    assert_eq!(WindowManager::I3.to_string(), "i3");
    assert_eq!(WindowManager::Openbox.to_string(), "Openbox");
    assert_eq!(WindowManager::Bspwm.to_string(), "bspwm");
    assert_eq!(WindowManager::Qtile.to_string(), "Qtile");
    assert_eq!(WindowManager::Xmonad.to_string(), "XMonad");
    assert_eq!(WindowManager::Unknown.to_string(), "Unknown");
}

#[test]
fn wm_from_str_case_insensitive() {
    assert_eq!(WindowManager::from_str("Hyprland").unwrap(), WindowManager::Hyprland);
    assert_eq!(WindowManager::from_str("SWAY").unwrap(), WindowManager::Sway);
    assert_eq!(WindowManager::from_str("i3").unwrap(), WindowManager::I3);
    assert_eq!(WindowManager::from_str("openbox").unwrap(), WindowManager::Openbox);
    assert_eq!(WindowManager::from_str("bspwm").unwrap(), WindowManager::Bspwm);
    assert_eq!(WindowManager::from_str("qtile").unwrap(), WindowManager::Qtile);
    assert_eq!(WindowManager::from_str("xmonad").unwrap(), WindowManager::Xmonad);
    assert_eq!(WindowManager::from_str("nope").unwrap(), WindowManager::Unknown);
}

#[test]
fn wm_display_name_parses_back() {
    let all = [
        WindowManager::Hyprland,
        WindowManager::Sway,
        WindowManager::I3,
        WindowManager::Openbox,
        WindowManager::Bspwm,
        WindowManager::Qtile,
        WindowManager::Xmonad,
        WindowManager::Unknown,
    ];
    for wm in all {
        assert_eq!(WindowManager::from_str(&wm.to_string()).unwrap(), wm);
    }
}

#[test]
fn wm_from_str_mixed_case_and_empty() {
    assert_eq!(WindowManager::from_str("XMoNaD").unwrap(), WindowManager::Xmonad);
    assert_eq!(WindowManager::from_str("I3").unwrap(), WindowManager::I3);
    assert_eq!(WindowManager::from_str("").unwrap(), WindowManager::Unknown);
    assert_eq!(WindowManager::from_str("hyprland ").unwrap(), WindowManager::Unknown);
    let parsed: WindowManager = "BSPWM".parse().unwrap();
    assert_eq!(parsed, WindowManager::Bspwm);
}

#[test]
fn timestamp_order() {
    let a = Timestamp { secs: 10, nanos: 5 };
    let b = Timestamp { secs: 10, nanos: 6 };
    let c = Timestamp { secs: 11, nanos: 0 };
    assert!(a.is_before(&b));
    assert!(b.is_before(&c));
    assert!(!b.is_before(&a));
    assert!(!a.is_before(&a));
}

#[test]
fn rice_duplicate_is_equal() {
    let r = Rice {
        id: "r".into(),
        name: "R".into(),
        author: "a".into(),
        description: "d".into(),
        wm: WindowManager::Sway,
        theme: "nord".into(),
        fonts: vec!["Iosevka".into()],
        dependencies: vec!["sway".into()],
        repo_url: "https://example.com".into(),
        screenshots: vec![],
        stars: 3,
        commit_hash: Some("abc123".into()),
        updated_at: Some(Timestamp { secs: 1, nanos: 2 }),
    };
    assert_eq!(r.duplicate(), r);
}

#[test]
fn wm_index_names_parse_back() {
    let names = ["hyprland", "sway", "i3", "openbox", "bspwm", "qtile", "xmonad", "unknown"];
    let wms = [
        WindowManager::Hyprland,
        WindowManager::Sway,
        WindowManager::I3,
        WindowManager::Openbox,
        WindowManager::Bspwm,
        WindowManager::Qtile,
        WindowManager::Xmonad,
        WindowManager::Unknown,
    ];
    for (n, w) in names.iter().zip(wms) {
        assert_eq!(WindowManager::from_str(n).unwrap(), w);
    }
}
