use std::path::PathBuf;

use peekpe::app::{Entry, EntryKind};
use peekpe::listing::{arrange_entries, sort_entries, Listed};

fn item(name: &str, is_dir: bool) -> Listed {
    Listed { name: name.to_string(), path: PathBuf::from(format!("/d/{name}")), is_dir }
}

#[test]
fn parent_then_dirs_then_pe_files() {
    let listed = vec![
        item("zeta.dll", false),
        item("Beta", true),
        item("notes.txt", false),
        item("alpha", true),
        item("App.EXE", false),
        item("lib.so", false),
    ];
    let entries = arrange_entries(Some(PathBuf::from("/")), listed);
    let names: Vec<&str> = entries.iter().map(|e| e.name.as_str()).collect();
    assert_eq!(names, vec!["..", "alpha", "Beta", "App.EXE", "zeta.dll"]);
    assert_eq!(entries[0].kind, EntryKind::Parent);
    assert_eq!(entries[0].path, PathBuf::from("/"));
    assert_eq!(entries[1].kind, EntryKind::Dir);
    assert_eq!(entries[1].path, PathBuf::from("/d/alpha"));
    assert_eq!(entries[3].kind, EntryKind::PeFile);
}

#[test]
fn root_has_no_parent_entry() {
    let entries = arrange_entries(None, vec![item("b.exe", false), item("a.exe", false)]);
    let names: Vec<&str> = entries.iter().map(|e| e.name.as_str()).collect();
    assert_eq!(names, vec!["a.exe", "b.exe"]);
    assert!(arrange_entries(None, Vec::new()).is_empty());
}

#[test]
fn a_directory_named_like_a_pe_file_stays_a_directory() {
    let entries = arrange_entries(None, vec![item("setup.exe", true)]);
    assert_eq!(entries.len(), 1);
    assert_eq!(entries[0].kind, EntryKind::Dir);
}

#[test]
fn equal_keys_keep_listing_order() {
    let listed = vec![item("B.exe", false), item("b.exe", false), item("a.exe", false)];
    let entries = arrange_entries(None, listed);
    let names: Vec<&str> = entries.iter().map(|e| e.name.as_str()).collect();
    assert_eq!(names, vec!["a.exe", "B.exe", "b.exe"]);
}

#[test]
fn sorts_by_lowercase_code_points() {
    let listed = vec![item("b", true), item("Ä", true), item("A", true), item("ab", true), item("_", true)];
    let entries = arrange_entries(None, listed);
    let names: Vec<&str> = entries.iter().map(|e| e.name.as_str()).collect();
    assert_eq!(names, vec!["_", "A", "ab", "b", "Ä"]);
}

#[test]
fn sort_entries_alone() {
    let e = |n: &str| Entry { name: n.to_string(), path: PathBuf::from(n), kind: EntryKind::Dir };
    let sorted = sort_entries(vec![e("c"), e("A"), e("b")]);
    let names: Vec<&str> = sorted.iter().map(|e| e.name.as_str()).collect();
    assert_eq!(names, vec!["A", "b", "c"]);
}
