//! Paths as they are written on Windows and elsewhere.

use okena_workspace::paths::{
    depth_of, is_rooted, is_same_place, is_within, parts_of, path_below, start_of,
};

#[test]
fn slashes_separate_everywhere_and_backslashes_on_windows() {
    assert_eq!(parts_of(false, "/a//b/./c/"), vec!["/", "a", "b", "c"]);
    assert_eq!(parts_of(false, "./a"), vec![".", "a"]);
    assert_eq!(parts_of(false, r"C:\a"), vec![r"C:\a"]);
    assert_eq!(parts_of(true, r"C:\a/b\.\c"), vec!["C:", "/", "a", "b", "c"]);
    assert_eq!(parts_of(true, r"a\b"), vec!["a", "b"]);
    assert_eq!(depth_of(true, r"C:\a\b"), 4);
}

#[test]
fn drives_and_shares_start_a_path_on_windows() {
    assert_eq!(start_of(true, r"c:\a"), vec!["C:", "/"]);
    assert_eq!(start_of(true, r"c:a"), vec!["C:"]);
    assert_eq!(start_of(true, r"//srv\share/x"), vec![r"\\srv\share", "/"]);
    assert_eq!(parts_of(true, r"\\srv\share\x"), vec![r"\\srv\share", "/", "x"]);
    assert_eq!(start_of(true, r"\\srv"), vec!["/"]);
    assert!(start_of(true, "1:x").is_empty());
    assert!(is_same_place(true, r"c:\A", r"C:/A/"));
    assert!(!is_same_place(true, r"C:\a", r"D:\a"));
    assert!(is_within(true, r"C:\repo\src", r"c:\repo"));
    assert!(!is_within(true, r"C:\repository", r"C:\repo"));
}

#[test]
fn a_path_is_absolute_with_a_drive_and_a_root_on_windows() {
    assert!(is_rooted(true, r"C:\windows"));
    assert!(!is_rooted(true, "C:temp"));
    assert!(!is_rooted(true, r"\temp"));
    assert!(is_rooted(true, r"\\srv\share"));
    assert!(is_rooted(false, "/tmp"));
    assert!(!is_rooted(false, r"C:\windows"));
    assert!(!is_rooted(false, ""));
}

#[test]
fn a_name_goes_below_a_directory_or_replaces_it() {
    assert_eq!(path_below(false, "/a", "b"), "/a/b");
    assert_eq!(path_below(false, "/a/", "b"), "/a/b");
    assert_eq!(path_below(false, "/a", "/b"), "/b");
    assert_eq!(path_below(true, r"C:\a", "b"), r"C:\a\b");
    assert_eq!(path_below(true, r"C:\a", r"\b"), r"C:\b");
    assert_eq!(path_below(true, r"C:\a", "D:b"), "D:b");
    assert_eq!(path_below(true, "C:", "b"), "C:b");
    assert_eq!(path_below(true, "C:/a/", "b"), "C:/a/b");
}
