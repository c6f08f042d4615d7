use rclone_gui::files::{
    bytes_before, entries_from, entry_before, list_remote_directory, remote_entries, sort_entries,
    ListingError,
};
use rclone_gui::job::strip_trailing_slashes;
use rclone_gui::json::Json;
use rclone_gui::models::FileEntry;

fn entry(name: &str, is_dir: bool, size: Option<u64>) -> FileEntry {
    FileEntry {
        name: name.to_string(),
        path: format!("/root/{}", name),
        is_dir,
        size,
        modified: None,
    }
}

fn names(entries: &[FileEntry]) -> Vec<&str> {
    entries.iter().map(|e| e.name.as_str()).collect()
}

#[test]
fn directories_come_first_then_names_in_order() {
    let sorted = sort_entries(vec![
        entry("b.txt", false, Some(1)),
        entry("zeta", true, None),
        entry("a.txt", false, Some(2)),
        entry("alpha", true, None),
        entry("B.txt", false, Some(3)),
    ]);
    assert_eq!(names(&sorted), vec!["alpha", "zeta", "B.txt", "a.txt", "b.txt"]);
}

#[test]
fn sorting_keeps_every_entry() {
    let given = vec![
        entry("c", false, Some(3)),
        entry("a", false, Some(1)),
        entry("b", true, None),
        entry("a", false, Some(9)),
    ];
    let sorted = sort_entries(given);
    assert_eq!(sorted.len(), 4);
    assert_eq!(names(&sorted), vec!["b", "a", "a", "c"]);
    assert_eq!(sorted[1].size, Some(1));
    assert_eq!(sorted[2].size, Some(9));
    assert_eq!(sorted[0].path, "/root/b");
}

#[test]
fn sorting_of_few_entries() {
    assert!(sort_entries(vec![]).is_empty());
    assert_eq!(names(&sort_entries(vec![entry("x", false, None)])), vec!["x"]);
    let sorted = sort_entries(vec![entry("x", false, None), entry("x", true, None)]);
    assert!(sorted[0].is_dir);
    assert!(!sorted[1].is_dir);
}

#[test]
fn sorting_agrees_with_the_order_of_text() {
    let words = ["", "a", "ab", "abc", "b", "B", "ä", "z", "10", "9", "a b", "a-b", "日本"];
    let given: Vec<FileEntry> = words.iter().rev().map(|w| entry(w, false, None)).collect();
    let sorted = sort_entries(given);
    let mut expected: Vec<&str> = words.to_vec();
    expected.sort();
    assert_eq!(names(&sorted), expected);
}

#[test]
fn order_of_bytes_and_entries() {
    assert!(bytes_before(b"a", b"b"));
    assert!(bytes_before(b"", b"a"));
    assert!(bytes_before(b"a", b"aa"));
    assert!(!bytes_before(b"a", b"a"));
    assert!(!bytes_before(b"b", b"a"));
    assert!(!bytes_before(b"", b""));
    assert!(bytes_before(b"Z", b"a"));
    assert!(entry_before(&entry("z", true, None), &entry("a", false, None)));
    assert!(!entry_before(&entry("a", false, None), &entry("z", true, None)));
    assert!(entry_before(&entry("a", true, None), &entry("b", true, None)));
    assert!(!entry_before(&entry("a", true, None), &entry("a", true, None)));
}

#[test]
fn remote_listing_is_read() {
    let output = r#"[
        {"Path":"docs","Name":"docs","Size":-1,"MimeType":"inode/directory","ModTime":"2024-01-02T03:04:05Z","IsDir":true},
        {"Path":"a.txt","Name":"a.txt","Size":12,"MimeType":"text/plain","ModTime":"2024-01-02T03:04:06Z","IsDir":false}
    ]"#;
    let entries = list_remote_directory("backup/", output).unwrap();
    assert_eq!(entries.len(), 2);
    assert_eq!(entries[0].name, "docs");
    assert_eq!(entries[0].path, "backup/docs");
    assert!(entries[0].is_dir);
    assert_eq!(entries[0].size, None);
    assert_eq!(entries[0].modified.as_deref(), Some("2024-01-02T03:04:05Z"));
    assert_eq!(entries[1].name, "a.txt");
    assert_eq!(entries[1].path, "backup/a.txt");
    assert!(!entries[1].is_dir);
    assert_eq!(entries[1].size, Some(12));
}

#[test]
fn remote_listing_with_missing_members() {
    let entries = list_remote_directory("/", r#"[{}, {"Name":"x"}, 7, {"IsDir":"yes","Size":1.5}]"#)
        .unwrap();
    assert_eq!(entries.len(), 4);
    assert_eq!(entries[0].name, "");
    assert_eq!(entries[0].path, "/");
    assert!(!entries[0].is_dir);
    assert_eq!(entries[0].size, None);
    assert_eq!(entries[0].modified, None);
    assert_eq!(entries[1].path, "/x");
    assert_eq!(entries[2].name, "");
    assert!(!entries[3].is_dir);
    assert_eq!(entries[3].size, None);
}

#[test]
fn remote_listing_keeps_the_order_of_the_tool() {
    let entries =
        list_remote_directory("p", r#"[{"Name":"b"},{"Name":"a"},{"Name":"c"}]"#).unwrap();
    assert_eq!(names(&entries), vec!["b", "a", "c"]);
    assert_eq!(entries[0].path, "p/b");
    assert!(list_remote_directory("p", "[]").unwrap().is_empty());
}

#[test]
fn remote_listing_that_cannot_be_read() {
    assert_eq!(list_remote_directory("p", "not json").unwrap_err(), ListingError::NotJson);
    assert_eq!(list_remote_directory("p", "").unwrap_err(), ListingError::NotJson);
    assert_eq!(list_remote_directory("p", r#"{"Name":"a"}"#).unwrap_err(), ListingError::NotAList);
    assert_eq!(list_remote_directory("p", "null").unwrap_err(), ListingError::NotAList);
}

#[test]
fn remote_entries_of_a_given_value() {
    let item = r#"{"Name":"f","IsDir":true,"Size":3}"#.to_string();
    let entries = remote_entries("a/b///", &Json::Array(vec![item])).unwrap();
    assert_eq!(entries[0].path, "a/b/f");
    assert!(entries[0].is_dir);
    assert_eq!(entries[0].size, Some(3));
    assert!(remote_entries("a", &Json::Null).is_none());
    assert_eq!(entries_from("a", &None).unwrap_err(), ListingError::NotJson);
    assert_eq!(entries_from("a", &Some(Json::Bool(true))).unwrap_err(), ListingError::NotAList);
    assert!(entries_from("a", &Some(Json::Array(vec![]))).unwrap().is_empty());
}

#[test]
fn trailing_slashes_are_taken_off() {
    assert_eq!(strip_trailing_slashes("a/b/"), "a/b");
    assert_eq!(strip_trailing_slashes("a/b"), "a/b");
    assert_eq!(strip_trailing_slashes("///"), "");
    assert_eq!(strip_trailing_slashes(""), "");
    assert_eq!(strip_trailing_slashes("/ü/"), "/ü");
}
