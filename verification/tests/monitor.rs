//! The shell's watch over the watchdog.
use winrestyle::guardian::RelaunchState;
use winrestyle::ipc::{ToShell, ToWatchdog, HEARTBEAT_TIMEOUT_NS};
use winrestyle::monitor::{watchdog_died, Heartbeat, Request, Successor};

#[test]
fn beats_are_numbered() {
    let mut h = Heartbeat::new();
    assert_eq!(h.beat(7), ToWatchdog::ShellHeartbeat { seq: 0, pid: 7 });
    assert_eq!(h.beat(7), ToWatchdog::ShellHeartbeat { seq: 1, pid: 7 });
    h.seq = u64::MAX;
    h.beat(7);
    assert_eq!(h.seq, 0);
}

#[test]
fn silence_counts_after_an_answer_only() {
    let mut h = Heartbeat::new();
    assert_eq!(h.hung_watchdog(u64::MAX), None);
    let ack = ToShell::HeartbeatAck { seq: 0, pid: 99 };
    assert_eq!(h.on_message(ack, 10), Request::Nothing);
    assert_eq!(h.hung_watchdog(10 + HEARTBEAT_TIMEOUT_NS), None);
    assert_eq!(h.hung_watchdog(11 + HEARTBEAT_TIMEOUT_NS), Some(99));
    h.disconnected();
    assert_eq!(h.hung_watchdog(u64::MAX), None);
    assert_eq!(h.on_message(ToShell::ReloadConfig, 1), Request::Reload);
    assert_eq!(h.on_message(ToShell::Shutdown, 1), Request::Shutdown);
}

#[test]
fn a_runaway_watchdog_is_relaunched_three_times() {
    let mut state = RelaunchState::default();
    for now in 100..103 {
        match watchdog_died(state, now) {
            Successor::Relaunch(next) => state = next,
            Successor::RestoreWindows => panic!("given up too early"),
        }
    }
    assert_eq!(watchdog_died(state, 103), Successor::RestoreWindows);
    // Past the window the count starts over.
    assert_eq!(
        watchdog_died(state, 161),
        Successor::Relaunch(RelaunchState {
            count: 1,
            first_unix_secs: 161
        })
    );
    let full = RelaunchState {
        count: u32::MAX,
        first_unix_secs: 100,
    };
    assert_eq!(watchdog_died(full, 100), Successor::RestoreWindows);
}
