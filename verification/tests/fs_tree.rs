//! The explorer tree.

use tscode::fs_tree::load::DirEntry;
use tscode::fs_tree::load::DirListing;
use tscode::fs_tree::load::TreeError;
use tscode::fs_tree::ExplorerSortMode;
use tscode::fs_tree::FsTree;
use tscode::path::FsPath;
use tscode::path::PathPart;

fn path(names: &[&str]) -> FsPath {
    let mut parts = vec![PathPart::Anchor(b"/".to_vec())];
    parts.extend(names.iter().map(|name| PathPart::Normal(name.as_bytes().to_vec())));
    FsPath { parts }
}

fn entry(name: &str, is_dir: bool, len: u64, modified: i128) -> DirEntry {
    DirEntry {
        file_name: name.as_bytes().to_vec(),
        name: name.to_owned(),
        is_dir,
        len: Some(len),
        modified: Some(modified),
        readonly: false,
    }
}

fn listings() -> Vec<DirListing> {
    vec![
        DirListing {
            path: path(&["w"]),
            entries: Some(vec![
                entry("b.rs", false, 10, 3),
                entry("src", true, 0, 1),
                entry("A.txt", false, 30, 2),
                entry("docs", true, 0, 9),
            ]),
        },
        DirListing {
            path: path(&["w", "src"]),
            entries: Some(vec![entry("main.rs", false, 5, 5), entry("deep", true, 0, 6)]),
        },
        DirListing {
            path: path(&["w", "src", "deep"]),
            entries: Some(vec![entry("x.rs", false, 1, 1)]),
        },
        DirListing { path: path(&["w", "docs"]), entries: None },
    ]
}

fn tree() -> FsTree {
    FsTree::new(path(&["w"]), Some("/w".to_owned()), None, false, &listings()).unwrap()
}

fn names(tree: &FsTree) -> Vec<String> {
    tree.visible_nodes().into_iter().map(|node| node.name).collect()
}

#[test]
fn directories_come_first_and_names_ignore_case() {
    let tree = tree();
    assert_eq!(names(&tree), ["w", "docs", "src", "A.txt", "b.rs"]);
    let nodes = tree.visible_nodes();
    assert_eq!(nodes[0].depth, 0);
    assert!(nodes[0].expanded);
    assert_eq!(nodes[3].depth, 1);
    assert_eq!(nodes[3].size, Some(30));
    assert_eq!(nodes[1].size, None);
}

#[test]
fn sort_modes_form_a_cycle_and_order_the_nodes() {
    let mut tree = tree();
    assert_eq!(tree.sort_mode(), ExplorerSortMode::Name);
    let mut mode = ExplorerSortMode::Name;
    let mut labels = Vec::new();
    for _ in 0..4 {
        labels.push(mode.label());
        mode = mode.next();
    }
    assert_eq!(mode, ExplorerSortMode::Name);
    assert_eq!(labels, ["name", "type", "modified", "size"]);
    tree.set_sort_mode(ExplorerSortMode::Type);
    assert_eq!(names(&tree), ["w", "docs", "src", "b.rs", "A.txt"]);
    tree.set_sort_mode(ExplorerSortMode::Modified);
    assert_eq!(names(&tree), ["w", "docs", "src", "b.rs", "A.txt"]);
    tree.set_sort_mode(ExplorerSortMode::Size);
    assert_eq!(names(&tree), ["w", "docs", "src", "A.txt", "b.rs"]);
}

#[test]
fn toggling_opens_and_closes_a_directory() {
    let mut tree = tree();
    let src = path(&["w", "src"]);
    tree.toggle(&src, &listings()).unwrap();
    assert_eq!(names(&tree), ["w", "docs", "src", "deep", "main.rs", "A.txt", "b.rs"]);
    tree.toggle(&src, &listings()).unwrap();
    assert_eq!(names(&tree), ["w", "docs", "src", "A.txt", "b.rs"]);
}

#[test]
fn directories_that_cannot_be_read_are_reported() {
    let mut tree = tree();
    let docs = path(&["w", "docs"]);
    assert_eq!(tree.toggle(&docs, &listings()), Err(TreeError::Unreadable(docs.clone())));
    assert_eq!(tree.toggle(&docs, &Vec::new()), Err(TreeError::NotListed(docs)));
    assert_eq!(
        FsTree::new(path(&["w"]), None, None, false, &Vec::new()).err(),
        Some(TreeError::NotListed(path(&["w"])))
    );
}

#[test]
fn a_revealed_file_is_selected() {
    let mut tree = tree();
    tree.reveal_path(&path(&["w", "src", "deep", "x.rs"]), &listings()).unwrap();
    assert_eq!(
        names(&tree),
        ["w", "docs", "src", "deep", "x.rs", "main.rs", "A.txt", "b.rs"]
    );
    assert_eq!(tree.selected, 4);
}

#[test]
fn refreshing_keeps_what_is_expanded() {
    let mut tree = tree();
    tree.reveal_path(&path(&["w", "src", "deep", "x.rs"]), &listings()).unwrap();
    let before = names(&tree);
    tree.refresh(&listings()).unwrap();
    assert_eq!(names(&tree), before);
    let mut fewer = listings();
    fewer[1].entries = Some(vec![entry("other.rs", false, 1, 1)]);
    tree.refresh(&fewer).unwrap();
    assert_eq!(names(&tree), ["w", "docs", "src", "other.rs", "A.txt", "b.rs"]);
}

#[test]
fn collapsing_closes_directories() {
    let mut tree = tree();
    tree.reveal_path(&path(&["w", "src", "deep", "x.rs"]), &listings()).unwrap();
    tree.collapse(&path(&["w", "src"]));
    assert_eq!(names(&tree), ["w", "docs", "src", "A.txt", "b.rs"]);
    tree.toggle(&path(&["w", "src"]), &listings()).unwrap();
    tree.selected = 6;
    tree.collapse_all();
    assert_eq!(names(&tree), ["w", "docs", "src", "A.txt", "b.rs"]);
    assert!(tree.selected < 5);
}

#[test]
fn upper_case_names_stand_among_lower_case_ones() {
    let listing = vec![DirListing {
        path: path(&["w"]),
        entries: Some(vec![
            entry("B.txt", false, 1, 1),
            entry("a.rs", false, 1, 1),
            entry("Éa.rs", false, 1, 1),
            entry("éb.rs", false, 1, 1),
        ]),
    }];
    let mut tree = FsTree::new(path(&["w"]), None, None, false, &listing).unwrap();
    assert_eq!(names(&tree), ["w", "a.rs", "B.txt", "Éa.rs", "éb.rs"]);
    let by_name = names(&tree);
    tree.set_sort_mode(ExplorerSortMode::Size);
    let mut by_size = names(&tree);
    by_size.sort();
    let mut all = by_name;
    all.sort();
    assert_eq!(by_size, all);
}

fn rows(tree: &FsTree) -> Vec<(String, usize, bool)> {
    tree.visible_nodes().into_iter().map(|node| (node.name, node.depth, node.expanded)).collect()
}

fn row(name: &str, depth: usize, expanded: bool) -> (String, usize, bool) {
    (name.to_owned(), depth, expanded)
}

fn open_tree() -> FsTree {
    let mut tree = tree();
    tree.toggle(&path(&["w", "src"]), &listings()).unwrap();
    tree.toggle(&path(&["w", "src", "deep"]), &listings()).unwrap();
    tree
}

#[test]
fn rows_follow_the_directories_that_list_them() {
    let tree = open_tree();
    assert_eq!(
        rows(&tree),
        [
            row("w", 0, true),
            row("docs", 1, false),
            row("src", 1, true),
            row("deep", 2, true),
            row("x.rs", 3, false),
            row("main.rs", 2, false),
            row("A.txt", 1, false),
            row("b.rs", 1, false),
        ]
    );
    let nodes = tree.visible_nodes();
    for i in 1..nodes.len() {
        let above = (0..i).rev().find(|j| nodes[*j].depth < nodes[i].depth).unwrap();
        assert_eq!(nodes[above].depth + 1, nodes[i].depth);
        assert!(nodes[above].is_dir && nodes[above].expanded);
        assert!(nodes[i].path.starts_with(&nodes[above].path));
    }
}

#[test]
fn toggling_twice_restores_what_is_expanded_below() {
    let mut tree = open_tree();
    let before = rows(&tree);
    let src = path(&["w", "src"]);
    tree.toggle(&src, &Vec::new()).unwrap();
    assert_eq!(
        rows(&tree),
        [
            row("w", 0, true),
            row("docs", 1, false),
            row("src", 1, false),
            row("A.txt", 1, false),
            row("b.rs", 1, false),
        ]
    );
    tree.toggle(&src, &Vec::new()).unwrap();
    assert_eq!(rows(&tree), before);
}

#[test]
fn collapsing_removes_the_deeper_rows() {
    let mut tree = open_tree();
    tree.selected = 7;
    tree.scroll = 7;
    tree.collapse(&path(&["w", "src"]));
    assert_eq!(
        rows(&tree),
        [
            row("w", 0, true),
            row("docs", 1, false),
            row("src", 1, false),
            row("A.txt", 1, false),
            row("b.rs", 1, false),
        ]
    );
    assert_eq!(tree.selected(), 4);
    assert_eq!(tree.scroll(), 4);
    let once = rows(&tree);
    tree.collapse(&path(&["w", "src"]));
    assert_eq!(rows(&tree), once);
    tree.collapse(&path(&["w", "A.txt"]));
    assert_eq!(rows(&tree), once);
    tree.collapse(&path(&["w", "src", "deep"]));
    assert_eq!(rows(&tree), once);
}

#[test]
fn directories_below_are_collapsed_after_all_were() {
    let mut tree = open_tree();
    tree.collapse_all();
    assert_eq!(names(&tree), ["w", "docs", "src", "A.txt", "b.rs"]);
    let once = rows(&tree);
    tree.collapse_all();
    assert_eq!(rows(&tree), once);
    tree.toggle(&path(&["w", "src"]), &Vec::new()).unwrap();
    assert_eq!(
        rows(&tree),
        [
            row("w", 0, true),
            row("docs", 1, false),
            row("src", 1, true),
            row("deep", 2, false),
            row("main.rs", 2, false),
            row("A.txt", 1, false),
            row("b.rs", 1, false),
        ]
    );
}

#[test]
fn refreshing_again_changes_nothing() {
    let mut tree = open_tree();
    tree.set_sort_mode(ExplorerSortMode::Size);
    let fresh = vec![
        DirListing {
            path: path(&["w"]),
            entries: Some(vec![
                entry("small", false, 1, 1),
                entry("large", false, 9, 1),
                entry("src", true, 0, 1),
                entry("new", true, 0, 1),
            ]),
        },
        DirListing {
            path: path(&["w", "src"]),
            entries: Some(vec![entry("deep", false, 5, 5)]),
        },
    ];
    tree.refresh(&fresh).unwrap();
    let once = rows(&tree);
    assert_eq!(
        once,
        [
            row("w", 0, true),
            row("new", 1, false),
            row("src", 1, true),
            row("deep", 2, false),
            row("large", 1, false),
            row("small", 1, false),
        ]
    );
    assert_eq!(tree.sort_mode(), ExplorerSortMode::Size);
    tree.refresh(&fresh).unwrap();
    assert_eq!(rows(&tree), once);
}
