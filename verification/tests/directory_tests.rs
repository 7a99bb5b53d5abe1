use filebrowser::classify::{FileEntry, FileType};
use filebrowser::directory::{Directory, ScanError, ScannedEntry, SubdirRef};

fn file(name: &str) -> ScannedEntry {
    ScannedEntry { name: name.to_string(), path: format!("/d/{name}"), is_dir: false, size: None }
}

fn subdir(name: &str) -> ScannedEntry {
    ScannedEntry { name: name.to_string(), path: format!("/d/{name}"), is_dir: true, size: None }
}

fn dir_at(path: &str) -> Directory {
    Directory::new("d".to_string(), path.to_string())
}

#[test]
fn listing_sorts_subdirectories_before_files() {
    let mut d = dir_at("/d");
    let raw = vec![file("b.txt"), file("a.rs"), subdir("z")];
    d.scan_and_add(Some(raw), false).unwrap();
    assert_eq!(d.entries(), vec!["z/".to_string(), "a.rs".to_string(), "b.txt".to_string()]);
}

#[test]
fn listing_is_independent_of_enumeration_order() {
    let mut d1 = dir_at("/d");
    let mut d2 = dir_at("/d");
    d1.scan_and_add(Some(vec![file("c"), subdir("b"), file("a"), subdir("d")]), false).unwrap();
    d2.scan_and_add(Some(vec![subdir("d"), file("a"), file("c"), subdir("b")]), false).unwrap();
    assert_eq!(d1.entries(), d2.entries());
    assert_eq!(d1.entries(), vec!["b/", "d/", "a", "c"]);
}

#[test]
fn failed_scan_keeps_previous_contents() {
    let mut d = dir_at("/d");
    d.scan_and_add(Some(vec![file("a"), subdir("s")]), false).unwrap();
    let before = d.entries();
    let r = d.scan_and_add(None, false);
    assert_eq!(r, Err(ScanError::Unreadable));
    assert_eq!(d.entries(), before);
}

#[test]
fn hidden_entries_follow_the_flag() {
    let raw = || vec![file(".secret"), subdir(".git"), file("visible")];
    let mut shown = dir_at("/d");
    shown.scan_and_add(Some(raw()), true).unwrap();
    assert_eq!(shown.entries(), vec![".git/", ".secret", "visible"]);
    let mut bare = dir_at("/d");
    bare.scan_and_add(Some(raw()), false).unwrap();
    assert_eq!(bare.entries(), vec!["visible"]);
}

#[test]
fn delete_then_rescan_equals_fresh_scan() {
    let mut d = dir_at("/d");
    d.scan_and_add(Some(vec![file("A"), file("X"), file("B")]), false).unwrap();
    assert_eq!(d.entries(), vec!["A", "B", "X"]);
    d.scan_and_add(Some(vec![file("B"), file("A")]), false).unwrap();
    let mut fresh = dir_at("/d");
    fresh.scan_and_add(Some(vec![file("A"), file("B")]), false).unwrap();
    assert_eq!(d.entries(), fresh.entries());
    assert!(!d.entries().iter().any(|e| e == "X"));
}

#[test]
fn decorated_listing_marks_directories_and_files() {
    let mut d = dir_at("/d");
    d.scan_and_add(Some(vec![subdir("z"), file("m.rs")]), false).unwrap();
    let lines = d.entries_with_symbols();
    assert_eq!(lines[0], "\u{1f4c2} z/");
    assert_eq!(lines[1], "</>  m.rs (Size Unknown)");
}

#[test]
fn find_subdirectory_strips_the_marker() {
    let mut d = dir_at("/d");
    d.scan_and_add(Some(vec![subdir("z"), file("z.txt")]), false).unwrap();
    let s = d.find_subdirectory("z/").expect("should find z");
    assert_eq!(s.name, "z");
    assert_eq!(s.path, "/d/z");
    assert!(d.find_subdirectory("w/").is_none());
}

#[test]
fn scan_classifies_files_by_name() {
    let mut d = dir_at("/d");
    d.scan_and_add(Some(vec![file("a.rs"), file("b.png"), file("c")]), false).unwrap();
    assert_eq!(d.files[0].filetype, FileType::Code);
    assert_eq!(d.files[1].filetype, FileType::Media);
    assert_eq!(d.files[2].filetype, FileType::Unknown);
}

#[test]
fn add_file_and_add_subdirectory_append() {
    let mut d = dir_at("/d");
    d.add_file(FileEntry { name: "n".to_string(), filetype: FileType::Unknown, size: None });
    d.add_subdirectory(SubdirRef { name: "s".to_string(), path: "/d/s".to_string() });
    assert_eq!(d.files.len(), 1);
    assert_eq!(d.subdirectories.len(), 1);
}

#[test]
fn sort_methods_order_by_name() {
    let mut d = dir_at("/d");
    d.scan_and_add(Some(vec![file("b"), file("a")]), false).unwrap();
    // already sorted by the scan; sorting again changes nothing
    d.sort_files();
    d.sort_subdirectories();
    assert_eq!(d.entries(), vec!["a", "b"]);
}
