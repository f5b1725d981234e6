use notefs::error::{FsErrorKind, HostError, HostErrorClass};
use notefs::listing::{build_listing, entry_leq, sort_entries, DirectoryEntry, RawEntry};

fn raw(name: &str, is_dir: bool, size: u64) -> RawEntry {
    RawEntry {
        name: name.to_string(),
        path: format!("/base/{}", name),
        is_dir,
        is_file: !is_dir,
        size,
    }
}

fn entry(name: &str, is_dir: bool, size: Option<u64>) -> DirectoryEntry {
    DirectoryEntry {
        name: name.to_string(),
        path: format!("/base/{}", name),
        is_dir,
        size,
    }
}

#[test]
fn directories_come_first_then_case_insensitive_name_order() {
    let probes = vec![
        Ok(raw("B.txt", false, 3)),
        Ok(raw("a", true, 0)),
        Ok(raw("Z", true, 0)),
        Ok(raw("a.txt", false, 5)),
    ];
    let listing = build_listing(probes).unwrap();
    let names: Vec<&str> = listing.iter().map(|e| e.name.as_str()).collect();
    assert_eq!(names, vec!["a", "Z", "a.txt", "B.txt"]);
}

#[test]
fn files_carry_their_length_and_directories_none() {
    let probes = vec![Ok(raw("notes.md", false, 42)), Ok(raw("drafts", true, 0))];
    let listing = build_listing(probes).unwrap();
    assert_eq!(listing[0].name, "drafts");
    assert!(listing[0].is_dir);
    assert_eq!(listing[0].size, None);
    assert_eq!(listing[1].name, "notes.md");
    assert!(!listing[1].is_dir);
    assert_eq!(listing[1].size, Some(42));
    assert_eq!(listing[1].path, "/base/notes.md");
}

#[test]
fn one_unreadable_entry_fails_the_whole_listing() {
    let probes = vec![
        Ok(raw("a.txt", false, 1)),
        Ok(raw("b.txt", false, 2)),
        Err(HostError {
            class: HostErrorClass::NotFound,
            message: "dangling link".to_string(),
        }),
        Ok(raw("c.txt", false, 3)),
    ];
    let e = build_listing(probes).unwrap_err();
    assert_eq!(e.kind, FsErrorKind::NotFound);
    assert_eq!(e.message, "dangling link");
}

#[test]
fn the_earliest_failure_is_the_one_reported() {
    let probes = vec![
        Err(HostError {
            class: HostErrorClass::PermissionDenied,
            message: "first".to_string(),
        }),
        Err(HostError {
            class: HostErrorClass::Other,
            message: "second".to_string(),
        }),
    ];
    let e = build_listing(probes).unwrap_err();
    assert_eq!(e.kind, FsErrorKind::PermissionDenied);
    assert_eq!(e.message, "first");
}

#[test]
fn an_empty_directory_lists_empty() {
    let listing = build_listing(Vec::new()).unwrap();
    assert!(listing.is_empty());
}

#[test]
fn sorting_keeps_every_entry_including_folded_ties() {
    let entries = vec![
        entry("A.txt", false, Some(1)),
        entry("a.txt", false, Some(2)),
        entry("b", true, None),
    ];
    let sorted = sort_entries(entries);
    assert_eq!(sorted.len(), 3);
    assert_eq!(sorted[0].name, "b");
    let mut tail: Vec<&str> = sorted[1..].iter().map(|e| e.name.as_str()).collect();
    tail.sort();
    assert_eq!(tail, vec!["A.txt", "a.txt"]);
}

#[test]
fn a_directory_sorts_before_any_file_regardless_of_name() {
    let zdir = entry("zzz", true, None);
    let afile = entry("aaa", false, Some(1));
    assert!(entry_leq(&zdir, &afile));
    assert!(!entry_leq(&afile, &zdir));
}

#[test]
fn within_one_classification_folded_names_decide() {
    let b_upper = entry("B.txt", false, Some(1));
    let a_lower = entry("a.txt", false, Some(1));
    assert!(entry_leq(&a_lower, &b_upper));
    assert!(!entry_leq(&b_upper, &a_lower));
}
