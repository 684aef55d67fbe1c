use mdx_desktop::explorer::is_hidden;
use mdx_desktop::explorer::list_entries;
use mdx_desktop::explorer::page_of;
use mdx_desktop::explorer::sort_nodes;
use mdx_desktop::explorer::FileMeta;
use mdx_desktop::explorer::ScanOptions;
use mdx_desktop::explorer::WalkEntry;
use mdx_desktop::text::chars_of;
use mdx_desktop::text::precedes;
use mdx_desktop::text::string_of;
use mdx_desktop::types::DirectoryPage;
use mdx_desktop::types::FileNode;
use mdx_desktop::types::FsEventPayload;
use mdx_desktop::upload::sanitize_filename;

fn file(name: &str) -> FileNode {
    FileNode::new(format!("/ws/{}", name), name.to_string(), true, Some(1), None)
}

fn dir(name: &str) -> FileNode {
    FileNode::new(format!("/ws/{}", name), name.to_string(), false, None, None)
}

fn paths(nodes: &[FileNode]) -> Vec<String> {
    nodes.iter().map(|n| n.path.clone()).collect()
}

fn names(nodes: &[FileNode]) -> Vec<String> {
    nodes.iter().map(|n| n.name.clone()).collect()
}

fn before(a: &str, b: &str) -> bool {
    precedes(&a.chars().collect(), &b.chars().collect())
}

#[test]
fn new_node_has_no_children() {
    let node = FileNode::new("/ws/a.txt".to_string(), "a.txt".to_string(), true, Some(7), None);
    assert_eq!(node.path, "/ws/a.txt");
    assert_eq!(node.name, "a.txt");
    assert!(node.is_file);
    assert_eq!(node.size, Some(7));
    assert_eq!(node.modified, None);
    assert!(node.children.is_none());
}

#[test]
fn with_children_sets_only_the_children() {
    let node = dir("sub").with_children(vec![file("a.txt"), dir("inner")]);
    assert_eq!(node.name, "sub");
    assert!(!node.is_file);
    assert_eq!(node.size, None);
    let children = node.children.unwrap();
    assert_eq!(names(&children), vec!["a.txt", "inner"]);
    assert!(children[1].children.is_none());
}

#[test]
fn page_holds_what_it_is_given() {
    let page = DirectoryPage::new(vec![file("a")], 9, true);
    assert_eq!(page.nodes.len(), 1);
    assert_eq!(page.total_count, 9);
    assert!(page.has_more);
}

#[test]
fn events_carry_their_path() {
    let created = FsEventPayload::Created { path: "notes/a.md".to_string() };
    let modified = FsEventPayload::Modified { path: "notes/a.md".to_string() };
    let deleted = FsEventPayload::Deleted { path: "notes/a.md".to_string() };
    assert!(matches!(created, FsEventPayload::Created { ref path } if path == "notes/a.md"));
    assert!(matches!(modified, FsEventPayload::Modified { ref path } if path == "notes/a.md"));
    assert!(matches!(deleted, FsEventPayload::Deleted { ref path } if path == "notes/a.md"));
}

#[test]
fn default_options_hide_and_go_one_level_deep() {
    let options = ScanOptions::default();
    assert!(!options.include_hidden);
    assert_eq!(options.max_depth, 1);
}

#[test]
fn text_order_is_the_order_of_the_dictionary() {
    assert!(before("", "a"));
    assert!(before("a", "b"));
    assert!(before("a", "ab"));
    assert!(before("ab", "b"));
    assert!(before("A", "a"));
    assert!(before("z", "é"));
    assert!(!before("a", "a"));
    assert!(!before("", ""));
    assert!(!before("b", "a"));
    assert!(!before("ab", "a"));
}

#[test]
fn text_converts_to_characters_and_back() {
    assert_eq!(chars_of("héllo"), vec!['h', 'é', 'l', 'l', 'o']);
    assert_eq!(string_of(&vec!['h', 'é', 'l', 'l', 'o']), "héllo");
    assert_eq!(chars_of(""), Vec::<char>::new());
}

#[test]
fn sort_puts_directories_before_files() {
    let sorted = sort_nodes(vec![file("a"), dir("z"), file("b"), dir("y")]);
    assert_eq!(names(&sorted), vec!["y", "z", "a", "b"]);
}

#[test]
fn sort_ignores_case() {
    let sorted = sort_nodes(vec![file("b.txt"), file("A.txt"), dir("folder")]);
    assert_eq!(names(&sorted), vec!["folder", "A.txt", "b.txt"]);
    let sorted = sort_nodes(vec![file("B.txt"), file("a.txt")]);
    assert_eq!(names(&sorted), vec!["a.txt", "B.txt"]);
    let sorted = sort_nodes(vec![file("Éclair"), file("éclair2"), file("eclair")]);
    assert_eq!(names(&sorted), vec!["eclair", "Éclair", "éclair2"]);
}

#[test]
fn sort_keeps_nodes_of_one_rank_in_their_order() {
    let first = FileNode::new("/ws/1".to_string(), "Readme".to_string(), true, None, None);
    let second = FileNode::new("/ws/2".to_string(), "README".to_string(), true, None, None);
    let third = FileNode::new("/ws/3".to_string(), "readme".to_string(), true, None, None);
    let sorted = sort_nodes(vec![file("z"), first, file("a"), second, dir("readme"), third]);
    assert_eq!(paths(&sorted), vec!["/ws/readme", "/ws/a", "/ws/1", "/ws/2", "/ws/3", "/ws/z"]);
    let first = FileNode::new("/ws/1".to_string(), "Readme".to_string(), true, None, None);
    let second = FileNode::new("/ws/2".to_string(), "README".to_string(), true, None, None);
    let sorted = sort_nodes(vec![second, first]);
    assert_eq!(paths(&sorted), vec!["/ws/2", "/ws/1"]);
}

#[test]
fn sort_of_nothing_and_of_one() {
    assert_eq!(sort_nodes(Vec::new()).len(), 0);
    assert_eq!(names(&sort_nodes(vec![file("only")])), vec!["only"]);
}

#[test]
fn sort_handles_many_nodes() {
    let mut nodes = Vec::new();
    for i in 0..500 {
        nodes.push(file(&format!("file{:03}", (i * 37) % 500)));
    }
    let sorted = sort_nodes(nodes);
    assert_eq!(sorted.len(), 500);
    for i in 0..500 {
        assert_eq!(sorted[i].name, format!("file{:03}", i));
    }
}

#[test]
fn hidden_names_start_with_a_dot() {
    assert!(is_hidden(".git"));
    assert!(is_hidden("."));
    assert!(!is_hidden("a.b"));
    assert!(!is_hidden(""));
}

#[test]
fn listing_skips_root_hidden_and_unreadable_entries() {
    let meta = Some(FileMeta { is_file: true, is_dir: false, len: 3, modified: None });
    let folder = Some(FileMeta { is_file: false, is_dir: true, len: 4096, modified: None });
    let entries = vec![
        WalkEntry { path: "/ws/".to_string(), name: "ws".to_string(), metadata: folder },
        WalkEntry { path: "/ws/b".to_string(), name: "b".to_string(), metadata: meta },
        WalkEntry { path: "/ws/.env".to_string(), name: ".env".to_string(), metadata: meta },
        WalkEntry { path: "/ws/broken".to_string(), name: "broken".to_string(), metadata: None },
        WalkEntry { path: "/ws/sub".to_string(), name: "sub".to_string(), metadata: folder },
        WalkEntry { path: "/ws/a".to_string(), name: "a".to_string(), metadata: meta },
    ];
    let listing = list_entries(entries.clone(), "/ws", false);
    assert_eq!(names(&listing), vec!["sub", "a", "b"]);
    assert_eq!(listing[0].size, None);
    assert_eq!(listing[1].size, Some(3));
    let listing = list_entries(entries, "/ws", true);
    assert_eq!(names(&listing), vec!["sub", ".env", "a", "b"]);
}

#[test]
fn page_of_cuts_a_window() {
    let listing = || (0..8).map(|i| file(&format!("f{}", i))).collect::<Vec<FileNode>>();
    let page = page_of(listing(), 0, 3);
    assert_eq!(names(&page.nodes), vec!["f0", "f1", "f2"]);
    assert_eq!(page.total_count, 8);
    assert!(page.has_more);
    let page = page_of(listing(), 6, 3);
    assert_eq!(names(&page.nodes), vec!["f6", "f7"]);
    assert_eq!(page.total_count, 8);
    assert!(!page.has_more);
    let page = page_of(listing(), 100, 3);
    assert_eq!(page.nodes.len(), 0);
    assert_eq!(page.total_count, 8);
    assert!(!page.has_more);
    let page = page_of(listing(), 5, 3);
    assert_eq!(names(&page.nodes), vec!["f5", "f6", "f7"]);
    assert!(!page.has_more);
    let page = page_of(listing(), 4, 3);
    assert_eq!(names(&page.nodes), vec!["f4", "f5", "f6"]);
    assert!(page.has_more);
    let page = page_of(listing(), 1, usize::MAX);
    assert_eq!(page.nodes.len(), 7);
    assert!(!page.has_more);
    let page = page_of(Vec::new(), 0, 10);
    assert_eq!(page.nodes.len(), 0);
    assert_eq!(page.total_count, 0);
    assert!(!page.has_more);
}

#[test]
fn sanitize_keeps_letters_digits_dash_underscore_and_dot() {
    assert_eq!(sanitize_filename("photo-1_final.v2.png"), "photo-1_final.v2.png");
    assert_eq!(sanitize_filename("my photo (1).png"), "my_photo__1_.png");
    assert_eq!(sanitize_filename("../../etc/passwd"), ".._.._etc_passwd");
    assert_eq!(sanitize_filename("a\\b:c*d?.gif"), "a_b_c_d_.gif");
    assert_eq!(sanitize_filename("grüße-日本.png"), "grüße-日本.png");
    assert_eq!(sanitize_filename("tab\there\n.png"), "tab_here_.png");
    assert_eq!(sanitize_filename(""), "");
}
