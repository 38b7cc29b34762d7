//! Safe-apply, live activation and teardown.
use winrestyle::manager::{
    activate_now, apply_restyle, missing_binaries, preflight, recovery_instructions,
    swapped_shell, sweep_wr_processes, trial_run, uninstall, ActivateStep, ApplyOutcome, ApplyStep, SweepStep,
    TrialStatus, TrialStep, UninstallStep, NO_DIRECTORY, REQUIRED_BINARIES,
};

#[test]
fn recovery_instructions_name_the_emergency_hotkey() {
    let text = recovery_instructions();
    assert!(text.contains(winrestyle::EMERGENCY_HOTKEY_LABEL));
    assert!(text.contains("restore"));
    assert!(text.contains("deactivate"));
}

#[test]
fn missing_binaries_reports_exactly_whats_absent() {
    // Everything present → nothing missing.
    assert!(missing_binaries(|_| true).is_empty());
    // Nothing present → all three.
    assert_eq!(missing_binaries(|_| false).len(), REQUIRED_BINARIES.len());
    // Only the shell present → the other two are missing.
    let missing = missing_binaries(|name| name == winrestyle::SHELL_EXE);
    assert!(!missing.contains(&winrestyle::SHELL_EXE));
    assert!(missing.contains(&"wr-watchdog.exe"));
    assert!(missing.contains(&winrestyle::TASKBAR_EXE));
}

#[test]
fn required_binaries_point_the_shell_at_the_watchdog() {
    // The watchdog must be in the required set — the swap targets it, not
    // wr-shell directly (see apply_restyle).
    assert!(REQUIRED_BINARIES.contains(&"wr-watchdog.exe"));
    assert!(REQUIRED_BINARIES.contains(&winrestyle::SHELL_EXE));
    assert!(REQUIRED_BINARIES.contains(&winrestyle::TASKBAR_EXE));
}

#[test]
fn applied_outcome_carries_recovery_text() {
    let outcome = ApplyOutcome::applied();
    assert!(!outcome.headline.is_empty());
    assert_eq!(outcome.instructions, recovery_instructions());
}

#[test]
fn preflight_names_what_is_missing() {
    assert_eq!(preflight(&vec![]), Ok(()));
    let e = preflight(&vec!["wr-shell.exe", "wr-taskbar.exe"]).unwrap_err();
    assert!(e.contains("wr-shell.exe") && e.contains("wr-taskbar.exe"));
}

#[test]
fn a_trial_run_passes_only_by_a_clean_exit() {
    assert_eq!(trial_run(TrialStatus::Succeeded, 99_999), TrialStep::Pass);
    assert_eq!(trial_run(TrialStatus::Failed, 0), TrialStep::Fail);
    assert_eq!(trial_run(TrialStatus::Running, 9_999), TrialStep::Wait);
    assert_eq!(
        trial_run(TrialStatus::Running, 10_000),
        TrialStep::EndAndFail
    );
}

#[test]
fn the_registry_is_touched_last() {
    let mut step = ApplyStep::Preflight;
    for expected in [
        ApplyStep::WriteConfig,
        ApplyStep::TrialRun,
        ApplyStep::Swap,
        ApplyStep::Applied,
        ApplyStep::Applied,
    ] {
        step = apply_restyle(step, true);
        assert_eq!(step, expected);
    }
    assert_eq!(
        apply_restyle(ApplyStep::TrialRun, false),
        ApplyStep::Failed
    );
    assert_eq!(apply_restyle(ApplyStep::Failed, true), ApplyStep::Failed);
    assert_eq!(
        ApplyStep::TrialRun.failure(),
        "trial run failed; registry NOT changed"
    );
}

#[test]
fn a_sweep_ends_clean_or_after_its_rounds() {
    assert_eq!(sweep_wr_processes(0, 0, false), SweepStep::Clean);
    assert_eq!(sweep_wr_processes(0, 1, false), SweepStep::Again);
    assert_eq!(sweep_wr_processes(6, 0, true), SweepStep::Again);
    assert_eq!(sweep_wr_processes(7, 0, true), SweepStep::GiveUp);
}

#[test]
fn an_activation_that_finds_another_desktop_backs_out() {
    let mut step = ActivateStep::Preflight;
    for expected in [
        ActivateStep::Sweep,
        ActivateStep::EndDesktop,
        ActivateStep::LaunchWatchdog,
        ActivateStep::Settle,
        ActivateStep::CheckDesktop,
        ActivateStep::Activated,
    ] {
        step = activate_now(step, true);
        assert_eq!(step, expected);
    }
    step = activate_now(ActivateStep::CheckDesktop, false);
    assert_eq!(step, ActivateStep::BackOut);
    assert_eq!(activate_now(step, true), ActivateStep::Failed);
    assert_eq!(
        ApplyOutcome::activated().headline,
        "WinRestyle is now your desktop."
    );
}

#[test]
fn a_teardown_launches_the_desktop_where_there_is_none() {
    let mut step = UninstallStep::Restore;
    step = uninstall(step, true);
    assert_eq!(step, UninstallStep::Sweep);
    step = uninstall(step, false);
    assert_eq!(step, UninstallStep::CheckDesktop);
    assert_eq!(uninstall(step, true), UninstallStep::Done);
    assert_eq!(uninstall(step, false), UninstallStep::LaunchDesktop);
    assert_eq!(
        uninstall(UninstallStep::Restore, false),
        UninstallStep::Failed
    );
}

#[test]
fn the_swapped_shell_is_the_watchdog_beside_the_program() {
    assert_eq!(
        swapped_shell(r"C:\WinRestyle\wr-installer.exe").as_deref(),
        Ok(r"C:\WinRestyle\wr-watchdog.exe")
    );
    assert_eq!(
        swapped_shell(r"C:\WinRestyle\").as_deref(),
        Ok(r"C:\wr-watchdog.exe")
    );
    assert_eq!(swapped_shell("C:wr.exe").as_deref(), Ok("C:wr-watchdog.exe"));
    assert_eq!(swapped_shell(r"C:\"), Err(NO_DIRECTORY));
    assert_eq!(swapped_shell(""), Err(NO_DIRECTORY));
}
