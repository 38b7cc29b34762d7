//! Start-menu application discovery.
use winrestyle::taskbar::apps::{enters, filter_indices, roots, scan, AppEntry, FoundFile};

/// The files met below a root, in the order a walk meets them.
fn root(root: &str, files: &[&str]) -> Vec<FoundFile> {
    files
        .iter()
        .map(|f| FoundFile {
            path: format!("{root}/{f}"),
            relative: f.to_string(),
        })
        .collect()
}

fn names(apps: &[AppEntry]) -> Vec<&str> {
    apps.iter().map(|a| a.name.as_str()).collect()
}

#[test]
fn scans_recursively_and_sorts_case_insensitively() {
    let r = root(
        "sort",
        &["zebra.lnk", "Accessories/alpha.lnk", "beta.url", "Mid.lnk"],
    );
    let apps = scan(&r);
    assert_eq!(names(&apps), vec!["alpha", "beta", "Mid", "zebra"]);
}

#[test]
fn non_shortcuts_are_ignored() {
    let r = root(
        "ext",
        &[
            "desktop.ini",
            "readme.txt",
            "app.lnk",
            "tool.LNK",
            "site.URL",
        ],
    );
    let apps = scan(&r);
    assert_eq!(names(&apps), vec!["app", "site", "tool"]);
}

#[test]
fn user_root_shadows_machine_on_same_relative_path() {
    let mut found = root("shadow-user", &["Sub/App.lnk", "UserOnly.lnk"]);
    found.extend(root("shadow-machine", &["Sub/App.lnk", "MachineOnly.lnk"]));
    let apps = scan(&found);
    assert_eq!(names(&apps), vec!["App", "MachineOnly", "UserOnly"]);
    // The surviving duplicate is the user's copy.
    let app = apps.iter().find(|a| a.name == "App").unwrap();
    assert!(app.path.starts_with("shadow-user"));
}

#[test]
fn shadowing_is_case_insensitive_on_the_relative_path() {
    let mut found = root("case-user", &["Tools/APP.lnk"]);
    found.extend(root("case-machine", &["tools/app.lnk"]));
    let apps = scan(&found);
    assert_eq!(apps.len(), 1);
    assert_eq!(apps[0].name, "APP");
}

#[test]
fn same_name_in_different_folders_is_not_a_duplicate() {
    let r = root("twins", &["A/Setup.lnk", "B/Setup.lnk"]);
    let apps = scan(&r);
    assert_eq!(apps.len(), 2);
}

#[test]
fn entries_of_one_name_are_ordered_by_the_components_of_their_paths() {
    let file = |path: &str, relative: &str| FoundFile {
        path: path.to_string(),
        relative: relative.to_string(),
    };
    let apps = scan(&vec![
        file("C:\\\\b\\x.lnk", r"b\x.lnk"),
        file(r"C:\a\x.lnk", r"a\x.lnk"),
    ]);
    assert_eq!(apps[0].path, r"C:\a\x.lnk");
    assert_eq!(apps[1].path, "C:\\\\b\\x.lnk");
    let other = AppEntry {
        name: "x".to_string(),
        path: "c:/a//x.lnk".to_string(),
    };
    assert!(apps[0] == other);
    assert!(apps[1] != other);
}

#[test]
fn missing_root_is_empty_not_an_error() {
    // A root that is not there has no files.
    assert!(scan(&root("wr-apps-does-not-exist", &[])).is_empty());
    assert!(scan(&Vec::new()).is_empty());
}

#[test]
fn filter_is_case_insensitive_substring_and_empty_matches_all() {
    let r = root("filter", &["Notepad.lnk", "Paint.lnk", "Note Taker.lnk"]);
    let apps = scan(&r);
    assert_eq!(names(&apps), vec!["Note Taker", "Notepad", "Paint"]);
    assert_eq!(filter_indices(&apps, ""), vec![0, 1, 2]);
    assert_eq!(filter_indices(&apps, "note"), vec![0, 1]);
    assert_eq!(filter_indices(&apps, "PAINT"), vec![2]);
    assert!(filter_indices(&apps, "nomatch").is_empty());
}

#[test]
fn roots_are_built_from_env_vars() {
    let roots = roots(Some("/tmp/wr-apps-appdata"), None);
    assert!(!roots.is_empty());
    assert!(roots[0].ends_with("Start Menu\\Programs"));
    assert!(roots[0].starts_with("/tmp/wr-apps-appdata"));
}

#[test]
fn the_user_root_comes_before_the_machine_root() {
    let both = roots(Some(r"C:\U"), Some(r"C:\P"));
    assert_eq!(
        both,
        vec![
            r"C:\U\Microsoft\Windows\Start Menu\Programs".to_string(),
            r"C:\P\Microsoft\Windows\Start Menu\Programs".to_string(),
        ]
    );
    assert!(roots(None, None).is_empty());
}

#[test]
fn folders_are_entered_up_to_a_depth() {
    assert!(enters(0));
    assert!(enters(7));
    assert!(!enters(8));
}

#[test]
fn filters_match_beyond_ascii() {
    let r = root("unicode", &["ÄRGER.lnk", "Straße.lnk"]);
    let apps = scan(&r);
    let hits = filter_indices(&apps, "ärger");
    assert_eq!(hits.len(), 1);
    assert_eq!(apps[hits[0]].name, "ÄRGER");
}
