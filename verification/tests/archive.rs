use file_commander::archive::{
    archive_base_name, archive_candidate, archive_file_name, archive_root, entry_name,
    file_entry_name, archive_search_next, archive_search_start, ArchiveError, ArchiveSearch,
};

#[test]
fn entry_names_use_forward_slashes() {
    assert_eq!(entry_name("photos\\2024\\a.jpg", false), "photos/2024/a.jpg");
    assert_eq!(entry_name("photos/2024", true), "photos/2024/");
    assert_eq!(entry_name("photos\\", true), "photos/");
    assert_eq!(entry_name("docs/", true), "docs/");
    assert_eq!(entry_name("", true), "/");
    assert_eq!(entry_name("plain.txt", false), "plain.txt");
}

#[test]
fn single_file_archives() {
    assert_eq!(file_entry_name("/home/u/notes.txt"), "notes.txt");
    assert_eq!(file_entry_name("notes.txt"), "notes.txt");
    assert_eq!(file_entry_name("/"), "archive");
    assert_eq!(file_entry_name(".."), "archive");
}

#[test]
fn directory_archives_are_named_from_the_parent() {
    assert_eq!(archive_root("/home/u/photos"), Ok("/home/u".to_string()));
    assert_eq!(archive_root("photos"), Ok("".to_string()));
    assert_eq!(archive_root("/"), Err(ArchiveError::InvalidSource));
    assert_eq!(ArchiveError::InvalidSource.message(), "Invalid source");
    assert_eq!(ArchiveError::EntryOutsideSource.message(), "Failed to build archive entry");
}

#[test]
fn archive_file_names() {
    assert_eq!(archive_base_name("/data/report.tar.gz", false), "report.tar");
    assert_eq!(archive_base_name("/data/photos.2024", true), "photos.2024");
    assert_eq!(archive_base_name("/", true), "archive");
    assert_eq!(archive_file_name("report", 0), "report.zip");
    assert_eq!(archive_file_name("report", 1), "report (2).zip");
    assert_eq!(archive_file_name("report", 9), "report (10).zip");
    assert_eq!(archive_file_name("r", u64::MAX), "r (18446744073709551616).zip");
}

#[test]
fn archive_candidates_sit_next_to_the_source() {
    assert_eq!(archive_candidate("/data/report.txt", false, 0), "/data/report.zip");
    assert_eq!(archive_candidate("/data/report.txt", false, 2), "/data/report (3).zip");
    assert_eq!(archive_candidate("/data/photos", true, 0), "/data/photos.zip");
    assert_eq!(archive_candidate("/", true, 0), "./archive.zip");
}

#[test]
fn archive_names_follow_the_last_component() {
    assert_eq!(file_entry_name("/d/sub/report.txt"), "report.txt");
    assert_eq!(archive_base_name("/d/sub/report.txt", false), "report");
    assert_eq!(archive_base_name("/d/sub/photos", true), "photos");
    assert_eq!(archive_candidate("/d/report.txt", false, 0), "/d/report.zip");
    assert_eq!(archive_candidate("/d/report.txt", false, 1), "/d/report (2).zip");
    assert_eq!(archive_candidate("report.txt", false, 0), "report.zip");
    assert_eq!(file_entry_name("/d/.."), "archive");
}

#[test]
fn the_search_chooses_the_first_free_candidate() {
    let start = archive_search_start("/d/report.txt", false);
    let (attempt, path) = match start {
        ArchiveSearch::Check { attempt, path } => (attempt, path),
        other => panic!("unexpected {other:?}"),
    };
    assert_eq!(attempt, 0);
    assert_eq!(path, "/d/report.zip");
    let next = archive_search_next("/d/report.txt", false, attempt, path, true);
    let (attempt, path) = match next {
        ArchiveSearch::Check { attempt, path } => (attempt, path),
        other => panic!("unexpected {other:?}"),
    };
    assert_eq!(attempt, 1);
    assert_eq!(path, "/d/report (2).zip");
    match archive_search_next("/d/report.txt", false, attempt, path, false) {
        ArchiveSearch::Chosen { path } => assert_eq!(path, "/d/report (2).zip"),
        other => panic!("unexpected {other:?}"),
    }
}
