use riceforge::paths::{file_name_of, first_component_of, join, parent_of, strip_prefix};

#[test]
fn paths_join_like_std() {
    assert_eq!(join("/home/u", ".config"), "/home/u/.config");
    assert_eq!(join("/home/u/", ".config"), "/home/u/.config");
    assert_eq!(join("", "a"), "a");
    assert_eq!(join("/home/u", "/etc/x"), "/etc/x");
}

#[test]
fn paths_strip_prefix_like_std() {
    assert_eq!(strip_prefix("/a/b/c", "/a").as_deref(), Some("b/c"));
    assert_eq!(strip_prefix("/a/b", "/a/b").as_deref(), Some(""));
    assert_eq!(strip_prefix("/ab/c", "/a"), None);
    assert_eq!(strip_prefix("/x", "/a"), None);
}

#[test]
fn paths_strip_after_join_gives_back_relative() {
    let joined = join("/data/rices/r", ".config/hypr/hyprland.conf");
    assert_eq!(strip_prefix(&joined, "/data/rices/r").as_deref(), Some(".config/hypr/hyprland.conf"));
}

#[test]
fn paths_components() {
    assert_eq!(first_component_of(".config/hypr/x"), ".config");
    assert_eq!(first_component_of("README.md"), "README.md");
    assert_eq!(file_name_of("/a/b/c.txt"), "c.txt");
    assert_eq!(file_name_of("c.txt"), "c.txt");
}

#[test]
fn paths_parent_like_std() {
    assert_eq!(parent_of("/home/u/.zshrc").as_deref(), Some("/home/u"));
    assert_eq!(parent_of("/etc").as_deref(), Some("/"));
    assert_eq!(parent_of("file").as_deref(), Some(""));
    assert_eq!(parent_of("/"), None);
    assert_eq!(parent_of(""), None);
}
