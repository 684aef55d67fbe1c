use mdx_desktop::path::file_name;
use mdx_desktop::path::has_parent_marker;
use mdx_desktop::path::is_absolute;
use mdx_desktop::path::join;
use mdx_desktop::path::parent;
use mdx_desktop::path::same_path;
use mdx_desktop::path::starts_with;

#[test]
fn parent_marker_is_found_anywhere() {
    assert!(has_parent_marker(".."));
    assert!(has_parent_marker("../etc/passwd"));
    assert!(has_parent_marker("foo/../bar"));
    assert!(has_parent_marker("foo/.."));
    assert!(has_parent_marker("file..txt"));
    assert!(has_parent_marker("a/...b"));
}

#[test]
fn parent_marker_is_absent() {
    assert!(!has_parent_marker(""));
    assert!(!has_parent_marker("."));
    assert!(!has_parent_marker("a.b.c"));
    assert!(!has_parent_marker("./a/./b"));
    assert!(!has_parent_marker(".a/.b"));
}

#[test]
fn absolute_paths_start_at_the_root() {
    assert!(is_absolute("/"));
    assert!(is_absolute("/etc/passwd"));
    assert!(!is_absolute(""));
    assert!(!is_absolute("etc/passwd"));
    assert!(!is_absolute("./a"));
}

#[test]
fn join_adds_one_separator() {
    assert_eq!(join("/ws", "a.txt"), "/ws/a.txt");
    assert_eq!(join("/ws/", "a.txt"), "/ws/a.txt");
    assert_eq!(join("/ws", "a/b/c.txt"), "/ws/a/b/c.txt");
    assert_eq!(join("", "a.txt"), "a.txt");
    assert_eq!(join("/", "a.txt"), "/a.txt");
}

#[test]
fn join_with_empty_target_keeps_the_base() {
    assert_eq!(join("/ws", ""), "/ws/");
    assert!(same_path(&join("/ws", ""), "/ws"));
}

#[test]
fn join_of_absolute_target_replaces_the_base() {
    assert_eq!(join("/ws", "/etc/passwd"), "/etc/passwd");
}

#[test]
fn starts_with_compares_whole_names() {
    assert!(starts_with("/root/a", "/root"));
    assert!(starts_with("/root", "/root"));
    assert!(starts_with("/root/a/b", "/root/a"));
    assert!(!starts_with("/root-evil", "/root"));
    assert!(!starts_with("/root-evil/a", "/root"));
    assert!(!starts_with("/roo", "/root"));
    assert!(!starts_with("/", "/root"));
    assert!(starts_with("/root", "/"));
}

#[test]
fn starts_with_ignores_empty_names_and_dots() {
    assert!(starts_with("/root//a/", "/root/a"));
    assert!(starts_with("/root/./a", "/root/a/."));
    assert!(starts_with("/root/a", "/root/"));
}

#[test]
fn starts_with_tells_relative_from_absolute() {
    assert!(!starts_with("/root/a", "root"));
    assert!(!starts_with("root/a", "/root"));
    assert!(starts_with("root/a", "root"));
    assert!(starts_with("/root/a", ""));
    assert!(starts_with("", ""));
    assert!(!starts_with("", "a"));
}

#[test]
fn parent_drops_the_last_name() {
    assert_eq!(parent("/ws/a/b.txt"), Some("/ws/a".to_string()));
    assert_eq!(parent("/ws/a/"), Some("/ws".to_string()));
    assert_eq!(parent("/ws//a/./b"), Some("/ws/a".to_string()));
    assert_eq!(parent("/ws"), Some("/".to_string()));
    assert_eq!(parent("a"), Some("".to_string()));
    assert_eq!(parent("a/b"), Some("a".to_string()));
}

#[test]
fn parent_of_a_path_without_names_is_absent() {
    assert_eq!(parent("/"), None);
    assert_eq!(parent(""), None);
    assert_eq!(parent("//"), None);
    assert_eq!(parent("/."), None);
}

#[test]
fn file_name_is_the_last_name() {
    assert_eq!(file_name("/ws/a/b.txt"), Some("b.txt".to_string()));
    assert_eq!(file_name("/ws/a/"), Some("a".to_string()));
    assert_eq!(file_name("b.txt"), Some("b.txt".to_string()));
    assert_eq!(file_name("/ws/a/."), Some("a".to_string()));
    assert_eq!(file_name("/"), None);
    assert_eq!(file_name(""), None);
    assert_eq!(file_name("/ws/.."), None);
}

#[test]
fn same_path_compares_components() {
    assert!(same_path("/ws/a", "/ws//a/"));
    assert!(same_path("/ws/a", "/ws/./a"));
    assert!(!same_path("/ws/a", "/ws/b"));
    assert!(!same_path("/ws/a", "ws/a"));
    assert!(!same_path("/ws/a", "/ws"));
}

#[test]
fn paths_may_hold_any_characters() {
    assert_eq!(join("/ws", "file with spaces.txt"), "/ws/file with spaces.txt");
    assert_eq!(file_name("/ws/überfile.txt"), Some("überfile.txt".to_string()));
    assert_eq!(parent("/ws/日本語/メモ.md"), Some("/ws/日本語".to_string()));
    assert!(starts_with("/ws/日本語/メモ.md", "/ws/日本語"));
}
