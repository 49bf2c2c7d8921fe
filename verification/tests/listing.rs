use project_type_checker::render::{render_entry, render_tree};
use project_type_checker::tree::{EntryKind, GitTree, TreeEntry, TreeNode};

fn node(path: &str, node_type: &str, url: Option<&str>) -> TreeNode {
    TreeNode {
        path: path.to_string(),
        mode: "100644".to_string(),
        node_type: node_type.to_string(),
        sha: "0".repeat(40),
        size: Some(12),
        url: url.map(|u| u.to_string()),
    }
}

fn tree(nodes: Vec<TreeNode>) -> GitTree {
    GitTree { sha: "abc".to_string(), url: "https://host/tree".to_string(), tree: nodes }
}

#[test]
fn blob_is_a_file_with_its_address_as_handle() {
    let entry = node("src/main.rs", "blob", Some("https://host/blob/1")).entry().unwrap();
    assert_eq!(entry.path(), "src/main.rs");
    assert_eq!(entry.kind(), EntryKind::File);
    assert_eq!(entry.content_ref(), &Some("https://host/blob/1".to_string()));
}

#[test]
fn blob_without_address_is_a_file_without_handle() {
    let entry = node("a.txt", "blob", None).entry().unwrap();
    assert_eq!(entry.kind(), EntryKind::File);
    assert_eq!(entry.content_ref(), &None);
}

#[test]
fn tree_is_a_directory_without_handle() {
    let entry = node("src", "tree", Some("https://host/tree/2")).entry().unwrap();
    assert_eq!(entry.path(), "src");
    assert_eq!(entry.kind(), EntryKind::Directory);
    assert_eq!(entry.content_ref(), &None);
}

#[test]
fn node_of_another_type_is_no_entry() {
    assert!(node("vendor/lib", "commit", None).entry().is_none());
    assert!(node("x", "", None).entry().is_none());
    assert!(node("x", "Blob", None).entry().is_none());
}

#[test]
fn entries_follow_the_listing() {
    let listing = tree(vec![
        node("src", "tree", Some("t")),
        node("vendor/lib", "commit", None),
        node("src/main.rs", "blob", Some("b1")),
        node("README.md", "blob", None),
    ]);
    let entries = listing.entries();
    let seen: Vec<(String, EntryKind, Option<String>)> =
        entries.iter().map(|e| (e.path().clone(), e.kind(), e.content_ref().clone())).collect();
    assert_eq!(
        seen,
        vec![
            ("src".to_string(), EntryKind::Directory, None),
            ("src/main.rs".to_string(), EntryKind::File, Some("b1".to_string())),
            ("README.md".to_string(), EntryKind::File, None),
        ]
    );
    assert!(tree(vec![]).entries().is_empty());
}

#[test]
fn constructors_make_the_two_kinds() {
    let f = TreeEntry::file("a".to_string(), Some("u".to_string()));
    assert_eq!((f.path().as_str(), f.kind(), f.content_ref().clone()), ("a", EntryKind::File, Some("u".to_string())));
    let d = TreeEntry::directory("d".to_string());
    assert_eq!((d.path().as_str(), d.kind(), d.content_ref().clone()), ("d", EntryKind::Directory, None));
}

#[test]
fn line_is_indented_by_depth_and_level() {
    let file = TreeEntry::file("src/bin/tool.rs".to_string(), None);
    assert_eq!(render_entry(&file, 0), "    src/bin/tool.rs");
    assert_eq!(render_entry(&file, 1), "      src/bin/tool.rs");
    let top = TreeEntry::file("README.md".to_string(), None);
    assert_eq!(render_entry(&top, 0), "README.md");
    assert_eq!(render_entry(&top, 2), "    README.md");
}

#[test]
fn directory_line_ends_in_a_separator() {
    assert_eq!(render_entry(&TreeEntry::directory("src".to_string()), 0), "src/");
    assert_eq!(render_entry(&TreeEntry::directory("src/bin".to_string()), 0), "  src/bin/");
}

#[test]
fn tree_is_rendered_entry_by_entry() {
    let entries = tree(vec![
        node("src", "tree", None),
        node("src/main.rs", "blob", Some("b")),
        node("src/a", "tree", None),
        node("src/a/b.rs", "blob", Some("b")),
        node("Cargo.toml", "blob", Some("b")),
    ])
    .entries();
    assert_eq!(
        render_tree(&entries, 0),
        vec!["src/", "  src/main.rs", "  src/a/", "    src/a/b.rs", "Cargo.toml"]
    );
    assert!(render_tree(&[], 3).is_empty());
}
