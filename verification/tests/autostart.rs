//! Logon-autostart entries.
use winrestyle::autostart::{
    entry_id, enumerate, launch_list, mentions_variable, Action, AutostartEntry, FolderItem,
    Listing, RawValue, Source,
};

/// A machine without any startup entries.
fn nothing() -> Listing {
    Listing {
        user_run_once: vec![],
        machine_run: vec![],
        user_run: vec![],
        common_items: vec![],
        user_items: vec![],
        remote: false,
    }
}

#[test]
fn ids_match_the_shells_historical_wire_format() {
    // These exact strings are what users' `disabled` lists hold.
    assert_eq!(entry_id(Source::HkcuRun, "OneDrive"), "hkcu-run:OneDrive");
    assert_eq!(entry_id(Source::HklmRun, "Foo"), "hklm-run:Foo");
    assert_eq!(
        entry_id(Source::HkcuRunOnce, "!Setup"),
        "hkcu-runonce:!Setup"
    );
    assert_eq!(
        entry_id(Source::StartupUser, "Thing.lnk"),
        "startup-user:Thing.lnk"
    );
    assert_eq!(
        entry_id(Source::StartupCommon, "Corp.lnk"),
        "startup-common:Corp.lnk"
    );
    assert_eq!(entry_id(Source::Session, "rdpclip"), "session:rdpclip");
}

#[test]
fn entry_id_is_built_from_source_and_name() {
    let e = AutostartEntry::new(Source::HkcuRun, "App", "C:\\app.exe /bg");
    assert_eq!(e.id, "hkcu-run:App");
    assert_eq!(e.name, "App");
    assert_eq!(e.source, Source::HkcuRun);
    assert_eq!(e.detail, "C:\\app.exe /bg");
}

#[test]
fn every_source_has_distinct_prefix_and_a_label() {
    let all = [
        Source::HkcuRun,
        Source::HklmRun,
        Source::HkcuRunOnce,
        Source::StartupUser,
        Source::StartupCommon,
        Source::Session,
    ];
    let mut prefixes: Vec<&str> = all.iter().map(|s| s.prefix()).collect();
    prefixes.sort_unstable();
    prefixes.dedup();
    assert_eq!(prefixes.len(), all.len(), "prefixes must be unique");
    assert!(all.iter().all(|s| !s.label().is_empty()));
}

#[test]
fn enumerate_off_windows_is_empty() {
    // Where nothing could be read there is nothing to show.
    assert!(enumerate(&nothing()).is_empty());
}

fn value(name: &str, raw: &str, expanded: Option<&str>) -> RawValue {
    RawValue {
        name: name.to_string(),
        raw: raw.to_string(),
        expanded: expanded.map(|s| s.to_string()),
    }
}

fn item(name: &str, is_file: bool) -> FolderItem {
    FolderItem {
        name: name.to_string(),
        path: format!(r"C:\Startup\{name}"),
        is_file,
    }
}

/// A machine with an entry of every source.
fn everything() -> Listing {
    Listing {
        user_run_once: vec![value("!Setup", "setup.exe", None)],
        machine_run: vec![value("Foo", "  %ProgramFiles%\\foo.exe  ", Some(r"C:\PF\foo.exe"))],
        user_run: vec![value("", "nameless.exe", None), value("Blank", "   ", None)],
        common_items: vec![item("Corp.lnk", true), item("Desktop.INI", true)],
        user_items: vec![item("Folder", false), item("Mine.lnk", true)],
        remote: true,
    }
}

#[test]
fn the_manager_lists_every_source_in_order() {
    let listed = enumerate(&everything());
    let ids: Vec<&str> = listed.iter().map(|e| e.id.as_str()).collect();
    assert_eq!(
        ids,
        vec![
            "hkcu-runonce:!Setup",
            "hklm-run:Foo",
            "startup-common:Corp.lnk",
            "startup-user:Mine.lnk",
            "session:rdpclip",
        ]
    );
    // The command is shown as written, without the white space around it.
    assert_eq!(listed[1].detail, r"%ProgramFiles%\foo.exe");
    assert_eq!(listed[2].detail, r"C:\Startup\Corp.lnk");
    assert_eq!(listed[4].detail, "rdpclip.exe (clipboard redirection)");
}

#[test]
fn the_shell_launches_what_the_manager_lists() {
    let launched = launch_list(&everything());
    let listed = enumerate(&everything());
    assert_eq!(launched.len(), listed.len());
    for (a, b) in launched.iter().zip(&listed) {
        assert_eq!(a.id, b.id);
    }
    assert_eq!(
        launched[0].action,
        Action::RunOnce {
            name: "!Setup".to_string(),
            command: "setup.exe".to_string(),
            delete_after: true,
        }
    );
    // Variables are expanded for the launch.
    assert_eq!(
        launched[1].action,
        Action::CommandLine(r"C:\PF\foo.exe".to_string())
    );
    assert_eq!(
        launched[3].action,
        Action::OpenPath(r"C:\Startup\Mine.lnk".to_string())
    );
    assert_eq!(launched[4].action, Action::Rdpclip);
}

#[test]
fn only_a_percent_sign_mentions_a_variable() {
    assert!(mentions_variable(r"%windir%\x.exe"));
    assert!(!mentions_variable(r"C:\x.exe"));
}
