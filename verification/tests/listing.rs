use file_commander::fs::{
    copy_destination, entry_names, filter_by_name, list_dir, list_dir_names, move_destination,
    rename_destination, search, FsError,
};
use file_commander::Entry;

fn file(name: &str) -> Entry {
    Entry { name: name.to_string(), is_dir: false, size: Some(0), modified: None }
}

fn dir(name: &str) -> Entry {
    Entry { name: name.to_string(), is_dir: true, size: None, modified: None }
}

fn names(entries: &[Entry]) -> Vec<String> {
    entries.iter().map(|e| e.name.clone()).collect()
}

#[test]
fn list_and_search() {
    // the listing of `a_dir` holding `file1.txt` and `file2.log`
    let listing = vec![file("file2.log"), file("file1.txt")];
    let names = list_dir_names(listing.clone());
    assert!(names.contains(&"file1.txt".to_string()));
    assert!(names.contains(&"file2.log".to_string()));
    let found = search(listing, "file1");
    assert_eq!(found.len(), 1);
}

#[test]
fn copy_and_delete_file() {
    // `x.txt` copied from `base` into `dest`, then listed there
    let dest = copy_destination("base/x.txt", "dest").expect("a file name");
    assert_eq!(dest, "dest/x.txt");
    let names = list_dir_names(vec![file("x.txt")]);
    assert!(names.contains(&"x.txt".to_string()));
}

#[test]
fn directories_come_first_then_names_ignoring_case() {
    let listing = vec![file("b.txt"), dir("zeta"), file("A.txt"), dir("Alpha"), file("a.md")];
    let sorted = list_dir(listing);
    assert_eq!(names(&sorted), vec!["Alpha", "zeta", "a.md", "A.txt", "b.txt"]);
}

#[test]
fn equal_names_keep_their_listing_order() {
    let listing = vec![file("Read"), file("read"), file("READ")];
    let sorted = list_dir(listing);
    assert_eq!(names(&sorted), vec!["Read", "read", "READ"]);
}

#[test]
fn name_list_marks_directories() {
    let listing = vec![file("notes.txt"), dir("docs")];
    assert_eq!(list_dir_names(listing), vec!["docs/".to_string(), "notes.txt".to_string()]);
    assert_eq!(entry_names(vec![dir("x"), file("y")]), vec!["x/".to_string(), "y".to_string()]);
}

#[test]
fn search_is_case_sensitive_and_sorted() {
    let listing = vec![file("report.TXT"), file("a_report.txt"), dir("reports"), file("other")];
    let found = search(listing, "report");
    assert_eq!(names(&found), vec!["reports", "a_report.txt", "report.TXT"]);
    let none = search(vec![file("Report")], "report");
    assert!(none.is_empty());
}

#[test]
fn empty_pattern_keeps_everything() {
    let listing = vec![file("b"), file("a")];
    assert_eq!(names(&filter_by_name(listing.clone(), "")), vec!["b", "a"]);
    assert_eq!(names(&search(listing, "")), vec!["a", "b"]);
}

#[test]
fn move_lands_in_the_destination_directory() {
    assert_eq!(move_destination("/home/u/a.txt", "/tmp"), Ok("/tmp/a.txt".to_string()));
    assert_eq!(move_destination("plain", "/d"), Ok("/d/plain".to_string()));
}

#[test]
fn a_source_without_file_name_is_refused() {
    assert_eq!(move_destination("/", "/tmp"), Err(FsError::NoFileName));
    assert_eq!(move_destination("", "/tmp"), Err(FsError::NoFileName));
    assert_eq!(move_destination("a/..", "/tmp"), Err(FsError::NoFileName));
    assert_eq!(copy_destination("..", "/tmp"), None);
    assert_eq!(FsError::NoFileName.message(), "Source path has no file name");
}

#[test]
fn rename_stays_in_the_parent() {
    assert_eq!(rename_destination("/data/old.txt", "new.txt"), Ok("/data/new.txt".to_string()));
    assert_eq!(rename_destination("/", "x"), Err(FsError::InvalidPath));
    assert_eq!(rename_destination("", "x"), Err(FsError::InvalidPath));
    assert_eq!(FsError::InvalidPath.message(), "Invalid path");
    assert_eq!(FsError::DestinationExists.message(), "Destination already exists");
}

#[test]
fn the_listing_order_is_the_stable_sort_by_kind_and_lowercase_name() {
    let pool = ["b", "B", "a", "Ä", "ä", "a.txt", "A.txt", "Zeta", "zeta", "ß", "SS", "é", "E", "10", "9", ""];
    let mut listing = Vec::new();
    let mut x: u32 = 7;
    for i in 0..200u32 {
        x = x.wrapping_mul(1_103_515_245).wrapping_add(12_345);
        let name = pool[(x >> 16) as usize % pool.len()];
        listing.push(Entry { name: name.to_string(), is_dir: (x >> 8) % 3 == 0, size: Some(i as u64), modified: None });
    }
    let mut expected = listing.clone();
    expected.sort_by(|a, b| match (a.is_dir, b.is_dir) {
        (true, false) => std::cmp::Ordering::Less,
        (false, true) => std::cmp::Ordering::Greater,
        _ => a.name.to_lowercase().cmp(&b.name.to_lowercase()),
    });
    let sorted = list_dir(listing);
    let key = |e: &Entry| (e.name.clone(), e.is_dir, e.size);
    assert_eq!(sorted.iter().map(key).collect::<Vec<_>>(), expected.iter().map(key).collect::<Vec<_>>());
}

#[test]
fn real_paths_land_on_their_last_component() {
    assert_eq!(move_destination("/a/x.txt", "/t/dest"), Ok("/t/dest/x.txt".to_string()));
    assert_eq!(copy_destination("/t/base/x.txt", "/t/dest"), Some("/t/dest/x.txt".to_string()));
    assert_eq!(move_destination("a/..", "/t"), Err(FsError::NoFileName));
    assert_eq!(move_destination("/a/b/..", "/t"), Err(FsError::NoFileName));
    assert_eq!(rename_destination("/home/u/old", "new"), Ok("/home/u/new".to_string()));
    assert_eq!(rename_destination("old", "new"), Ok("new".to_string()));
    assert_eq!(rename_destination("/old", "new"), Ok("/new".to_string()));
}
