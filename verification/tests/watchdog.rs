//! The watchdog's decisions.
use winrestyle::ipc::{ToShell, ToWatchdog, HEARTBEAT_TIMEOUT_NS};
use winrestyle::watchdog::{
    number_option, recover_step, Guardian, MessageAction, PipeAction, PipeClocks, Reason,
    Received, RecoverStep, ShellAction, ShellEvent, PIPE_OBSERVING_BOUND_NS,
};

const SECOND: u64 = 1_000_000_000;

fn clocks() -> PipeClocks {
    PipeClocks {
        hang_after: None,
        reload_every: None,
        started: 0,
        last_reload: 0,
    }
}

#[test]
fn a_silent_shell_is_killed_by_a_watchdog_that_observes() {
    let mut g = Guardian::new(0);
    assert_eq!(
        g.supervise_shell(ShellEvent::Ready, 0),
        ShellAction::Launch
    );
    assert_eq!(g.supervise_shell(ShellEvent::Launched, 0), ShellAction::Poll);
    // Never heard of: not hung.
    assert_eq!(
        g.supervise_shell(ShellEvent::Running, 100 * SECOND),
        ShellAction::PollLater
    );
    let beat = Received::Message(ToWatchdog::ShellHeartbeat { seq: 1, pid: 7 });
    g.on_message(beat, 9, 100 * SECOND);
    let late = 100 * SECOND + HEARTBEAT_TIMEOUT_NS;
    assert_eq!(
        g.supervise_shell(ShellEvent::Running, late),
        ShellAction::PollLater
    );
    // Without an observer the watchdog is the hung one.
    assert_eq!(
        g.clone().supervise_shell(ShellEvent::Running, late + 1),
        ShellAction::ExitWatchdog
    );
    assert_eq!(g.serve_pipe(&mut clocks(), late), PipeAction::Receive);
    assert_eq!(
        g.supervise_shell(ShellEvent::Running, late + 1),
        ShellAction::Kill
    );
    assert_eq!(g.shell_heartbeat, None);
    assert!(PIPE_OBSERVING_BOUND_NS < HEARTBEAT_TIMEOUT_NS);
}

#[test]
fn a_crash_loop_recovers() {
    let mut g = Guardian::new(0);
    for i in 0..3 {
        assert_eq!(
            g.supervise_shell(ShellEvent::Exited, i),
            ShellAction::Launch
        );
    }
    assert_eq!(
        g.supervise_shell(ShellEvent::Exited, 3),
        ShellAction::Recover(Reason::CrashLoop)
    );
    assert!(g.recover());
    assert!(!g.recover());
    assert_eq!(
        g.supervise_shell(ShellEvent::Exited, 4),
        ShellAction::Stop
    );
    assert_eq!(
        g.supervise_shell(ShellEvent::LaunchFailed, 4),
        ShellAction::Recover(Reason::WouldNotLaunch)
    );
}

#[test]
fn heartbeats_are_acknowledged_while_the_supervisor_works() {
    let mut g = Guardian::new(0);
    let beat = Received::Message(ToWatchdog::ShellHeartbeat { seq: 42, pid: 7 });
    assert_eq!(
        g.on_message(beat, 5678, HEARTBEAT_TIMEOUT_NS),
        MessageAction::Send(ToShell::HeartbeatAck {
            seq: 42,
            pid: 5678
        })
    );
    assert_eq!(
        g.on_message(beat, 5678, HEARTBEAT_TIMEOUT_NS + 1),
        MessageAction::Withhold
    );
    assert_eq!(
        g.on_message(Received::Message(ToWatchdog::RequestRestore), 1, 0),
        MessageAction::Recover(Reason::Requested)
    );
    assert_eq!(
        g.on_message(Received::Nothing, 1, 0),
        MessageAction::PollLater
    );
    assert_eq!(
        g.on_message(Received::Gone, 1, 0),
        MessageAction::Disconnect
    );
    assert_eq!(g.shell_heartbeat, None);
    assert_eq!(g.pipe_alive, None);
}

#[test]
fn test_flags_reload_and_freeze_the_pipe() {
    let mut g = Guardian::new(0);
    let mut c = PipeClocks {
        hang_after: Some(10),
        reload_every: Some(4),
        started: 0,
        last_reload: 0,
    };
    assert_eq!(g.serve_pipe(&mut c, 3), PipeAction::Receive);
    assert_eq!(g.serve_pipe(&mut c, 4), PipeAction::SendReload);
    assert_eq!(g.serve_pipe(&mut c, 5), PipeAction::Receive);
    // However short the interval, one pass sends one reload and goes on.
    c.reload_every = Some(0);
    assert_eq!(g.serve_pipe(&mut c, 5), PipeAction::SendReload);
    assert_eq!(c.after_reload(5), PipeAction::Receive);
    assert_eq!(g.serve_pipe(&mut c, 10), PipeAction::SendReload);
    assert_eq!(c.after_reload(10), PipeAction::Freeze);
    c.reload_every = None;
    assert_eq!(g.serve_pipe(&mut c, 10), PipeAction::Freeze);
    g.recover();
    assert_eq!(g.serve_pipe(&mut c, 11), PipeAction::Stop);
}

#[test]
fn a_failed_wait_recovers_even_while_shutting_down() {
    let mut g = Guardian::new(0);
    let recover = ShellAction::Recover(Reason::WaitFailed);
    assert_eq!(g.supervise_shell(ShellEvent::WaitFailed, 5), recover);
    assert_eq!(g.supervisor_alive, 5);
    g.recover();
    assert_eq!(g.supervise_shell(ShellEvent::WaitFailed, 9), recover);
    assert_eq!(g.supervisor_alive, 5);
    assert_eq!(
        g.supervise_shell(ShellEvent::Running, 9),
        ShellAction::Stop
    );
}

#[test]
fn recovery_launches_a_desktop_only_where_there_is_none() {
    let mut s = RecoverStep::KillShell;
    s = recover_step(s, true);
    assert_eq!(s, RecoverStep::SweepSurfaces);
    s = recover_step(s, false);
    assert_eq!(s, RecoverStep::RestoreRegistry);
    s = recover_step(s, false);
    assert_eq!(s, RecoverStep::CheckDesktop);
    assert_eq!(recover_step(s, true), RecoverStep::Done);
    assert_eq!(recover_step(s, false), RecoverStep::LaunchDesktop);
    assert_eq!(
        recover_step(RecoverStep::LaunchDesktop, true),
        RecoverStep::Done
    );
}

#[test]
fn the_first_number_behind_a_flag_counts() {
    let args: Vec<String> = ["--x=a", "--x=5", "--x=6"]
        .iter()
        .map(|s| s.to_string())
        .collect();
    assert_eq!(number_option(&args, "--x="), Some(5));
    assert_eq!(number_option(&args, "--y="), None);
}
