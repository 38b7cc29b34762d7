//! The shell's supervision of the taskbar, and its own flags.
use winrestyle::shell_host::{logs_alive, Options, Tick};
use winrestyle::surfaces::{SurfaceAction, SurfaceEvent, Surfaces};

#[test]
fn the_switch_launches_and_kills_the_taskbar() {
    let mut s = Surfaces::new();
    assert_eq!(
        s.supervise(SurfaceEvent::Idle, false, 0),
        SurfaceAction::IdleLater
    );
    assert_eq!(
        s.supervise(SurfaceEvent::Idle, true, 0),
        SurfaceAction::Launch
    );
    assert_eq!(
        s.supervise(SurfaceEvent::Launched, true, 0),
        SurfaceAction::Watch
    );
    assert_eq!(
        s.supervise(SurfaceEvent::Running, true, 0),
        SurfaceAction::WatchLater
    );
    assert_eq!(
        s.supervise(SurfaceEvent::Running, false, 0),
        SurfaceAction::Kill
    );
    assert_eq!(
        s.supervise(SurfaceEvent::LaunchFailed, true, 0),
        SurfaceAction::GiveUp
    );
    assert_eq!(
        s.supervise(SurfaceEvent::Taken, true, 0),
        SurfaceAction::Idle
    );
}

#[test]
fn a_looping_taskbar_is_given_up_and_a_shutdown_stops() {
    let mut s = Surfaces::new();
    for i in 0..3 {
        assert_eq!(
            s.supervise(SurfaceEvent::Exited, true, i),
            SurfaceAction::Idle
        );
    }
    assert_eq!(
        s.supervise(SurfaceEvent::Exited, true, 3),
        SurfaceAction::GiveUp
    );
    s.shutdown();
    assert_eq!(
        s.supervise(SurfaceEvent::Exited, true, 4),
        SurfaceAction::Stop
    );
    assert_eq!(
        s.supervise(SurfaceEvent::Idle, true, 4),
        SurfaceAction::Stop
    );
}

fn args(list: &[&str]) -> Vec<String> {
    list.iter().map(|s| s.to_string()).collect()
}

#[test]
fn the_last_flag_of_a_kind_wins() {
    let o = Options::from_args(&args(&["--crash-after=5", "junk", "--crash-after=7"]));
    assert_eq!(o.crash_after, Some(7));
    assert_eq!(o.exit_after, None);
    let o = Options::from_args(&args(&["--exit-after=5", "--exit-after=x"]));
    assert_eq!(o, Options::default());
}

#[test]
fn a_crash_comes_before_an_exit() {
    let o = Options {
        crash_after: Some(3),
        exit_after: Some(2),
    };
    assert_eq!(o.tick(1), Tick::Sleep);
    assert_eq!(o.tick(2), Tick::Exit);
    assert_eq!(o.tick(3), Tick::Crash);
    assert!(logs_alive(0) && logs_alive(10) && !logs_alive(11));
}
