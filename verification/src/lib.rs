//! The logic of a replacement desktop shell.
use vstd::prelude::*;

pub mod autostart;
pub mod components;
pub mod config;
pub mod crash_loop;
pub mod geometry;
pub mod guardian;
pub mod installer;
pub mod ipc;
pub mod logon;
pub mod manager;
pub mod message;
pub mod monitor;
pub mod number;
pub mod paint;
pub mod paths;
pub mod process;
pub mod shell;
pub mod shell_host;
pub mod surfaces;
pub mod taskbar;
pub mod text;
pub mod wallpaper;
pub mod watchdog;

verus! {

/// The named pipe used to coordinate watchdog, shell and installer.
pub const PIPE_NAME: &'static str = "\\\\.\\pipe\\winrestyle";

/// Emergency-restore hotkey, documented in one place so UI and watchdog agree.
pub const EMERGENCY_HOTKEY_LABEL: &'static str = "Win + Ctrl + F1";

/// Executable names, shared so supervision and stray sweeps never drift.
pub const WATCHDOG_EXE: &'static str = "wr-watchdog.exe";

pub const SHELL_EXE: &'static str = "wr-shell.exe";

pub const TASKBAR_EXE: &'static str = "wr-taskbar.exe";

/// The installer/manager, spawned by the taskbar's start-menu actions to undo a
/// restyle or open the manager.
pub const INSTALLER_EXE: &'static str = "wr-installer.exe";

/// Window class of the taskbar's top-level bar windows. The shell finds the bar
/// by this class to forward config-change notifications.
///
/// Deliberately not the class of the stock tray: the tray host is a *separate*
/// hidden window the taskbar creates only in swapped sessions.
pub const TASKBAR_WINDOW_CLASS: &'static str = "WinRestyleTaskbar";

/// Name of the registered window message the shell posts to surface windows
/// after a config reload.
pub const CONFIG_CHANGED_MESSAGE: &'static str = "WinRestyleConfigChanged";

/// The names that the programs know each other by.
pub proof fn law_the_programs_know_each_other()
    ensures
        PIPE_NAME@ == "\\\\.\\pipe\\winrestyle"@,
        EMERGENCY_HOTKEY_LABEL@ == "Win + Ctrl + F1"@,
        WATCHDOG_EXE@ == "wr-watchdog.exe"@,
        SHELL_EXE@ == "wr-shell.exe"@,
        TASKBAR_EXE@ == "wr-taskbar.exe"@,
        INSTALLER_EXE@ == "wr-installer.exe"@,
        TASKBAR_WINDOW_CLASS@ == "WinRestyleTaskbar"@,
        CONFIG_CHANGED_MESSAGE@ == "WinRestyleConfigChanged"@,
{
}

} // verus!
