//! Running autostart at logon.
use winrestyle::autostart::{Action, Entry};
use winrestyle::config::Autostart;
use winrestyle::logon::{
    already_ran, entry_decision, logon_session, marker_path, plan, record_ran, run_decision,
    EntryDecision, Marker, RunDecision, Step,
};

fn config(enabled: bool, disabled: &[&str]) -> Autostart {
    Autostart {
        enabled,
        disabled: disabled.iter().map(|s| s.to_string()).collect(),
    }
}

#[test]
fn a_real_session_has_two_guards() {
    let on = config(true, &[]);
    assert_eq!(
        run_decision(&on, false, false, Marker::NotRan),
        RunDecision::Run
    );
    assert_eq!(
        run_decision(&on, false, false, Marker::Unavailable),
        RunDecision::Run
    );
    assert_eq!(
        run_decision(&on, false, true, Marker::NotRan),
        RunDecision::OtherDesktop
    );
    assert_eq!(
        run_decision(&on, false, false, Marker::Ran),
        RunDecision::AlreadyRan
    );
    // A test filter bypasses both.
    assert_eq!(
        run_decision(&on, true, true, Marker::Ran),
        RunDecision::Run
    );
    assert_eq!(
        run_decision(&config(false, &[]), true, false, Marker::NotRan),
        RunDecision::SwitchedOff
    );
}

#[test]
fn entries_are_filtered_then_switched_off() {
    let c = config(true, &["hkcu-run:OneDrive"]);
    assert_eq!(
        entry_decision(&c, None, "HKCU-run:onedrive"),
        EntryDecision::Disabled
    );
    assert_eq!(entry_decision(&c, None, "hkcu-run:X"), EntryDecision::Launch);
    assert_eq!(
        entry_decision(&c, Some("foo"), "hkcu-run:OneDrive"),
        EntryDecision::FilteredOut
    );
    assert_eq!(
        entry_decision(&c, Some("FOO"), "hkcu-run:myfoo"),
        EntryDecision::Launch
    );
}

fn entry(id: &str, action: Action) -> Entry {
    Entry {
        id: id.to_string(),
        action,
    }
}

#[test]
fn a_plan_launches_by_position_and_counts_what_is_off() {
    let entries = vec![
        entry("a:1", Action::Rdpclip),
        entry("a:2", Action::Rdpclip),
        entry("a:3", Action::Rdpclip),
    ];
    let p = plan(&config(true, &["A:2"]), None, &entries);
    assert_eq!(p.launch, vec![0, 2]);
    assert_eq!(p.disabled, 1);
}

#[test]
fn run_once_values_are_deleted_before_they_run() {
    let steps = entry(
        "hkcu-runonce:Setup",
        Action::RunOnce {
            name: "Setup".to_string(),
            command: "setup.exe".to_string(),
            delete_after: false,
        },
    )
    .launch();
    assert_eq!(
        steps,
        vec![
            Step::OpenRunOnce,
            Step::DeleteRunOnce {
                name: "Setup".to_string(),
                required: true
            },
            Step::Spawn("setup.exe".to_string()),
        ]
    );
    let steps = entry(
        "hkcu-runonce:!Setup",
        Action::RunOnce {
            name: "!Setup".to_string(),
            command: "setup.exe".to_string(),
            delete_after: true,
        },
    )
    .launch();
    assert_eq!(
        steps,
        vec![
            Step::OpenRunOnce,
            Step::Spawn("setup.exe".to_string()),
            Step::DeleteRunOnce {
                name: "!Setup".to_string(),
                required: false
            },
        ]
    );
    assert_eq!(
        entry("x", Action::CommandLine("c.exe".to_string())).launch(),
        vec![Step::Spawn("c.exe".to_string())]
    );
    assert_eq!(
        entry("x", Action::OpenPath("p.lnk".to_string())).launch(),
        vec![Step::Open("p.lnk".to_string())]
    );
    assert_eq!(
        entry("x", Action::Rdpclip).launch(),
        vec![Step::SpawnRdpclip]
    );
}

#[test]
fn a_marker_stops_its_own_session_only() {
    let session = logon_session(1, 0x2b);
    assert_eq!(session, 0x1_0000_002b);
    assert_eq!(record_ran(session), "10000002b");
    assert!(already_ran(Some("10000002b"), session));
    assert!(already_ran(Some(" 10000002b\r\n"), session));
    assert!(!already_ran(Some("10000002c"), session));
    assert!(!already_ran(None, session));
    assert_eq!(logon_session(-1, 0), 0xffff_ffff_0000_0000);
    assert_eq!(
        marker_path(r"C:\L"),
        r"C:\L\WinRestyle\autostart-session"
    );
}
