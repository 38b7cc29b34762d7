//! The shell swap, and whose taskbar is on screen.
use winrestyle::shell::{
    backup_and_set_shell, desktop_shell_running, has_backup, image_is_our_taskbar,
    read_user_shell, restore_shell, BackupMarker, RegWrite, RestoreOutcome, ShellError,
    ShellRegistry,
};

#[test]
fn our_taskbar_image_matching() {
    assert!(image_is_our_taskbar(
        r"C:\Program Files\WinRestyle\wr-taskbar.exe"
    ));
    assert!(image_is_our_taskbar(r"D:\builds\WR-TASKBAR.EXE"));
    assert!(image_is_our_taskbar("wr-taskbar.exe"));
    // Forward slashes appear in some query paths.
    assert!(image_is_our_taskbar("C:/x/wr-taskbar.exe"));

    // Explorer and third-party shells are NOT ours — they count as
    // desktop shells in desktop_shell_running.
    assert!(!image_is_our_taskbar(r"C:\Windows\explorer.exe"));
    assert!(!image_is_our_taskbar(r"C:\shells\litestep.exe"));
    assert!(!image_is_our_taskbar(r"C:\evil\notwr-taskbar.exe.bak"));
    assert!(!image_is_our_taskbar(r"C:\wr-taskbar.exe\payload.exe"));
    assert!(!image_is_our_taskbar(""));
}

fn reading(shell: Option<&str>, marker: BackupMarker, original: Option<&str>) -> ShellRegistry {
    ShellRegistry {
        shell: shell.map(|s| s.to_string()),
        marker,
        original: original.map(|s| s.to_string()),
    }
}

#[test]
fn a_swap_backs_up_before_it_sets() {
    let reg = reading(Some("old.exe"), BackupMarker::Absent, None);
    assert!(!has_backup(&reg));
    assert_eq!(read_user_shell(&reg).as_deref(), Some("old.exe"));
    assert_eq!(
        backup_and_set_shell(&reg, "new.exe"),
        Ok(vec![
            RegWrite::SetOriginal("old.exe".to_string()),
            RegWrite::SetMarker(1),
            RegWrite::SetShell("new.exe".to_string()),
        ])
    );
    let unset = reading(None, BackupMarker::Absent, None);
    assert_eq!(
        backup_and_set_shell(&unset, "new.exe"),
        Ok(vec![
            RegWrite::SetOriginal(String::new()),
            RegWrite::SetMarker(0),
            RegWrite::SetShell("new.exe".to_string()),
        ])
    );
}

#[test]
fn a_second_swap_is_refused() {
    let reg = reading(Some("new.exe"), BackupMarker::Number(1), Some("old.exe"));
    assert_eq!(
        backup_and_set_shell(&reg, "newer.exe"),
        Err(ShellError::BackupExists)
    );
    assert!(!ShellError::BackupExists.message().is_empty());
}

#[test]
fn a_restore_puts_back_exactly_what_was_there() {
    let reg = reading(Some("new.exe"), BackupMarker::Number(1), Some("old.exe"));
    assert_eq!(
        restore_shell(&reg),
        Ok((
            RestoreOutcome::RestoredOriginal,
            vec![
                RegWrite::SetShell("old.exe".to_string()),
                RegWrite::ClearBackup
            ]
        ))
    );
    let unset = reading(Some("new.exe"), BackupMarker::Number(0), Some(""));
    assert_eq!(
        restore_shell(&unset),
        Ok((
            RestoreOutcome::RemovedOverride,
            vec![RegWrite::DeleteShell, RegWrite::ClearBackup]
        ))
    );
    let nothing = reading(None, BackupMarker::Absent, None);
    assert_eq!(
        restore_shell(&nothing),
        Ok((RestoreOutcome::NothingToRestore, vec![]))
    );
    let torn = reading(Some("new.exe"), BackupMarker::Number(1), None);
    assert_eq!(restore_shell(&torn), Err(ShellError::OriginalUnreadable));
}

#[test]
fn our_own_tray_window_is_no_desktop() {
    let owner = |s: &str| Some(s.to_string());
    assert!(!desktop_shell_running(&vec![]));
    assert!(!desktop_shell_running(&vec![None, owner(r"C:\x\wr-taskbar.exe")]));
    assert!(desktop_shell_running(&vec![
        owner(r"C:\x\wr-taskbar.exe"),
        owner(r"C:\Windows\explorer.exe")
    ]));
}
