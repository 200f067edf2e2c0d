use repos::search::{decide, filter, is_hidden, Action, EntryInfo};

fn entry(name: &str, is_dir: bool, depth: usize) -> EntryInfo {
    EntryInfo { name: name.as_bytes().to_vec(), is_dir, depth }
}

/// A directory tree held in memory: a name, whether it is a directory, and
/// its children in the order the walk meets them.
struct Node {
    name: &'static str,
    is_dir: bool,
    children: Vec<Node>,
}

fn dir(name: &'static str, children: Vec<Node>) -> Node {
    Node { name, is_dir: true, children }
}

fn file(name: &'static str) -> Node {
    Node { name, is_dir: false, children: Vec::new() }
}

/// Walks the tree depth first, as the directory walker does, obeying each
/// decision, and returns the reported repository roots.
fn walk(node: &Node, path: &str, depth: usize, min_depth: Option<usize>, out: &mut Vec<String>) {
    match decide(&entry(node.name, node.is_dir, depth), min_depth) {
        Action::Ignore | Action::Prune => {}
        Action::Report => {
            let parent = &path[..path.len() - node.name.len() - 1];
            out.push(parent.to_string());
        }
        Action::Descend => {
            for child in &node.children {
                let child_path = format!("{}/{}", path, child.name);
                walk(child, &child_path, depth + 1, min_depth, out);
            }
        }
    }
}

fn scan(root: &Node, min_depth: Option<usize>) -> Vec<String> {
    let mut out = Vec::new();
    walk(root, root.name, 0, min_depth, &mut out);
    out.sort();
    out
}

fn sample_tree() -> Node {
    dir(
        "base",
        vec![
            dir("a", vec![dir(".git", vec![dir("objects", vec![])]), dir("sub", vec![dir(".git", vec![])])]),
            dir(".hidden", vec![dir(".git", vec![])]),
            dir("b", vec![dir("nested", vec![dir(".git", vec![]), file("README")])]),
            file("notes.txt"),
        ],
    )
}

#[test]
fn scenario_finds_visible_repositories() {
    let found = scan(&sample_tree(), None);
    assert_eq!(found, vec!["base/a", "base/a/sub", "base/b/nested"]);
    assert!(!found.iter().any(|p| p.contains(".hidden")));
}

#[test]
fn min_depth_drops_shallow_roots() {
    let found = scan(&sample_tree(), Some(2));
    assert_eq!(found, vec!["base/a/sub", "base/b/nested"]);
    let found = scan(&sample_tree(), Some(3));
    assert!(found.is_empty());
    let found = scan(&sample_tree(), Some(1));
    assert_eq!(found, vec!["base/a", "base/a/sub", "base/b/nested"]);
}

#[test]
fn min_depth_zero_reports_base_itself() {
    let tree = dir("base", vec![dir(".git", vec![]), dir("x", vec![dir(".git", vec![])])]);
    assert_eq!(scan(&tree, Some(0)), vec!["base", "base/x"]);
    assert_eq!(scan(&tree, Some(1)), vec!["base/x"]);
}

#[test]
fn hidden_base_yields_nothing() {
    let tree = dir(".config", vec![dir("x", vec![dir(".git", vec![])])]);
    assert!(scan(&tree, None).is_empty());
}

#[test]
fn marker_named_file_is_not_reported() {
    let tree = dir("base", vec![dir("work", vec![file(".git")])]);
    assert!(scan(&tree, None).is_empty());
}

#[test]
fn is_hidden_names() {
    assert!(is_hidden(&b".hidden".to_vec()));
    assert!(is_hidden(&b".".to_vec()));
    assert!(is_hidden(&b".gitignore".to_vec()));
    assert!(!is_hidden(&b".git".to_vec()));
    assert!(!is_hidden(&b".old.git".to_vec()));
    assert!(!is_hidden(&b"src".to_vec()));
    assert!(!is_hidden(&b"a.b".to_vec()));
    assert!(!is_hidden(&Vec::new()));
}

#[test]
fn filter_keeps_visible_directories() {
    assert!(filter(&entry("src", true, 1)));
    assert!(filter(&entry(".git", true, 1)));
    assert!(!filter(&entry(".cache", true, 1)));
    assert!(!filter(&entry("main.rs", false, 2)));
}

#[test]
fn decide_each_action() {
    assert_eq!(decide(&entry("file.txt", false, 1), None), Action::Ignore);
    assert_eq!(decide(&entry(".git", false, 1), None), Action::Ignore);
    assert_eq!(decide(&entry(".cache", true, 1), None), Action::Prune);
    assert_eq!(decide(&entry("src", true, 1), None), Action::Descend);
    assert_eq!(decide(&entry(".git", true, 1), None), Action::Report);
    assert_eq!(decide(&entry(".git", true, 1), Some(1)), Action::Prune);
    assert_eq!(decide(&entry(".git", true, 2), Some(1)), Action::Report);
    assert_eq!(decide(&entry("src", true, 0), Some(5)), Action::Descend);
    assert_eq!(decide(&entry(".hidden", true, 0), Some(5)), Action::Prune);
}
