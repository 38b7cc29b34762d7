//! Windows paths by their components.
use winrestyle::paths::{
    components, contains, file_name, join, parent, precedes, same, same_list, same_optional,
    sibling, tail, PartKind,
};

fn kinds(path: &str) -> Vec<PartKind> {
    components(path).iter().map(|p| p.kind).collect()
}

fn names(path: &str) -> Vec<String> {
    components(path).into_iter().map(|p| p.name).collect()
}

#[test]
fn a_path_is_its_components() {
    assert_eq!(
        kinds(r"c:\a/.\..//b.exe\"),
        vec![
            PartKind::Disk,
            PartKind::Root,
            PartKind::Name,
            PartKind::Up,
            PartKind::Name
        ]
    );
    assert_eq!(names(r"c:\a/.\..//b.exe\"), vec!["C", "", "a", "", "b.exe"]);
    assert_eq!(
        kinds(r"\\server\share\x"),
        vec![
            PartKind::Share,
            PartKind::Share,
            PartKind::Root,
            PartKind::Name
        ]
    );
    assert_eq!(
        names(r"\\server/share\x"),
        vec!["server", "share", "", "x"]
    );
    assert_eq!(
        kinds(r"\\.\COM42"),
        vec![PartKind::Device, PartKind::Root]
    );
    assert_eq!(
        kinds(r"\\?\c:\."),
        vec![PartKind::VerbatimDisk, PartKind::Root, PartKind::Here]
    );
    assert_eq!(names(r"\\?\pic/a\b"), vec!["pic/a", "", "b"]);
    assert_eq!(
        names(r"\\?\UNC\server\share\x"),
        vec!["server", "share", "", "x"]
    );
    assert_eq!(kinds("./a"), vec![PartKind::Here, PartKind::Name]);
    assert_eq!(kinds("C:."), vec![PartKind::Disk]);
    assert!(kinds("").is_empty());
}

#[test]
fn the_same_path_is_written_in_many_ways() {
    assert!(same("C:/a/x.lnk", "C:/a//x.lnk"));
    assert!(same(r"C:\a\x.lnk", "c:/a/./x.lnk"));
    assert!(same(r"C:\a\", r"C:\a"));
    assert!(same(r"\\server\share\x", "//server/share/x"));
    assert!(same(r"C:.\a", r"C:a"));
    assert!(same(r"\\?\c:\a", r"\\?\C:\\a"));
    // Names keep their case, and these are other paths.
    assert!(!same(r"C:\a\x.lnk", r"C:\A\x.lnk"));
    assert!(!same(r"C:\a", "C:a"));
    assert!(!same("./a", "a"));
    assert!(!same(r"C:\a\..\b", r"C:\b"));
    assert!(!same(r"\\?\C:\a", r"C:\a"));
    assert!(!same(r"\\?\C:\a/b", r"\\?\C:\a\b"));
    assert!(!same("", "."));
}

#[test]
fn paths_are_ordered_by_component() {
    // The component `a` comes before `b`, though a separator is doubled.
    assert!(precedes(r"C:\a\x.lnk", "C:\\\\b\\x.lnk"));
    assert!(!precedes("C:\\\\b\\x.lnk", r"C:\a\x.lnk"));
    // `a` begins `a b`, so what is in it comes first.
    assert!(precedes(r"C:\a\z", r"C:\a b\a"));
    assert!(precedes(r"C:\a", r"C:\a\b"));
    assert!(precedes(r"c:\a", r"D:\a"));
    assert!(precedes(r"\\server\share\a", r"C:\a"));
    assert!(precedes(r"C:\a", "a"));
    assert!(precedes(r"..\z", "a"));
    assert!(!precedes("C:/a", r"c:\a\."));
    assert!(!precedes(r"c:\a\.", "C:/a"));
}

#[test]
fn lists_and_options_of_paths_compare_by_component() {
    let list = vec![r"C:\a\x.lnk".to_string()];
    let other = vec!["c:/a//x.lnk".to_string()];
    assert!(contains(&list, "C:/a/x.lnk"));
    assert!(!contains(&list, "C:/a/y.lnk"));
    assert!(same_list(&list, &other));
    assert!(!same_list(&list, &Vec::new()));
    assert!(same_optional(list.first(), other.first()));
    assert!(same_optional(None, None));
    assert!(!same_optional(list.first(), None));
}

#[test]
fn a_path_ends_in_a_name() {
    assert_eq!(file_name(r"C:\a\b.exe\"), "b.exe");
    assert_eq!(file_name("C:b.exe"), "b.exe");
    assert_eq!(file_name(r"C:\a\.."), "");
    assert_eq!(file_name(r"C:\"), "");
    assert_eq!(tail(r"C:\a/b.exe"), "b.exe");
    assert_eq!(tail(r"C:\a\"), "");
}

#[test]
fn a_parent_is_what_is_left_without_the_last_component() {
    assert_eq!(parent(r"C:\a\b.exe").as_deref(), Some(r"C:\a"));
    assert_eq!(parent("C:\\a\\\\b\\.\\").as_deref(), Some(r"C:\a"));
    assert_eq!(parent(r"C:\a").as_deref(), Some(r"C:\"));
    assert_eq!(parent("C:a").as_deref(), Some("C:"));
    assert_eq!(parent(r"C:.\a").as_deref(), Some("C:."));
    assert_eq!(parent("a").as_deref(), Some(""));
    assert_eq!(parent(".").as_deref(), Some(""));
    assert_eq!(parent(r"C:\"), None);
    assert_eq!(parent("C:"), None);
    assert_eq!(parent(r"\\server\share\"), None);
    assert_eq!(parent(""), None);
}

#[test]
fn only_a_letter_and_a_colon_are_a_drive() {
    assert_eq!(join("1:", "x"), r"1:\x");
    assert_eq!(join("C:", "x"), "C:x");
    assert_eq!(join(r"C:\", "x"), r"C:\x");
    assert_eq!(join("C:/a/", "x"), "C:/a/x");
    assert_eq!(join("", "x"), "x");
    assert_eq!(sibling("C:wr.exe", "name").as_deref(), Some("C:name"));
    assert_eq!(sibling("wr.exe", "name").as_deref(), Some("name"));
    assert_eq!(
        sibling(r"\\server\share\wr.exe", "name").as_deref(),
        Some(r"\\server\share\name")
    );
    assert_eq!(sibling(r"C:\", "name"), None);
}
