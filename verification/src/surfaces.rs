//! Child surfaces: the shell spawns and supervises the taskbar.
//!
//! Surfaces are **cosmetic**. A dead taskbar is relaunched; a crash-looping
//! taskbar makes the shell *give up on the taskbar* and nothing else. A missing
//! taskbar never justifies touching the registry, recovery, or the safety
//! harness.
//!
//! [`Surfaces`] decides; the supervisor thread reports what it saw and does what
//! it is told. Times are nanoseconds on a monotonic clock.
use vstd::prelude::*;

use crate::crash_loop;

verus! {

/// How long the supervisor waits while the taskbar is switched off, in
/// milliseconds.
pub const DISABLED_POLL_MS: u64 = 1_000;

/// How long the supervisor waits between two looks at the taskbar, in
/// milliseconds.
pub const WATCH_POLL_MS: u64 = 200;

/// The state of the taskbar's supervision.
#[derive(Debug, Clone, PartialEq, Eq)]
pub struct Surfaces {
    /// Set when the shell is going away on purpose.
    pub shutting_down: bool,
    /// When the taskbar exited lately.
    pub crashes: Vec<u64>,
}

/// What the supervisor saw.
#[derive(Debug, Clone, Copy, PartialEq, Eq, Structural)]
pub enum SurfaceEvent {
    /// No taskbar is running and none is being watched.
    Idle,
    /// The taskbar would not launch.
    LaunchFailed,
    /// The taskbar was launched.
    Launched,
    /// The taskbar is running.
    Running,
    /// The taskbar exited, or waiting on it failed.
    Exited,
    /// The taskbar was taken and killed by a shutdown.
    Taken,
}

/// What the supervisor is to do.
#[derive(Debug, Clone, Copy, PartialEq, Eq, Structural)]
pub enum SurfaceAction {
    /// Launch the taskbar.
    Launch,
    /// Report idle again after [`DISABLED_POLL_MS`].
    IdleLater,
    /// Report idle again at once.
    Idle,
    /// Look at the taskbar.
    Watch,
    /// Look at the taskbar after [`WATCH_POLL_MS`].
    WatchLater,
    /// Kill the taskbar and wait for it to go, then report idle.
    Kill,
    /// Give up on the taskbar; the shell keeps running.
    GiveUp,
    /// End supervision.
    Stop,
}

/// What the supervisor is to do about an event.
pub open spec fn surface_action(
    s: Surfaces,
    event: SurfaceEvent,
    enabled: bool,
    now: u64,
) -> SurfaceAction {
    match event {
        SurfaceEvent::Idle => if s.shutting_down {
            SurfaceAction::Stop
        } else if enabled {
            SurfaceAction::Launch
        } else {
            SurfaceAction::IdleLater
        },
        SurfaceEvent::LaunchFailed => SurfaceAction::GiveUp,
        SurfaceEvent::Launched => SurfaceAction::Watch,
        SurfaceEvent::Running => if s.shutting_down {
            SurfaceAction::Idle
        } else if enabled {
            SurfaceAction::WatchLater
        } else {
            SurfaceAction::Kill
        },
        SurfaceEvent::Exited => if s.shutting_down {
            SurfaceAction::Stop
        } else if crash_loop::counted(s.crashes@, now).len() > crash_loop::CRASH_LIMIT {
            SurfaceAction::GiveUp
        } else {
            SurfaceAction::Idle
        },
        SurfaceEvent::Taken => SurfaceAction::Idle,
    }
}

impl Surfaces {
    /// Supervision that has seen nothing yet.
    pub fn new() -> (r: Self)
        ensures
            !r.shutting_down,
            r.crashes@ == Seq::<u64>::empty(),
    {
        Surfaces { shutting_down: false, crashes: Vec::new() }
    }

    /// What to do about what the supervisor saw at `now`, given whether the
    /// config has the taskbar on.
    pub fn supervise(&mut self, event: SurfaceEvent, enabled: bool, now: u64) -> (action:
        SurfaceAction)
        ensures
            action == surface_action(*old(self), event, enabled, now),
            final(self).shutting_down == old(self).shutting_down,
            final(self).crashes@ == if event == SurfaceEvent::Exited && !old(self).shutting_down {
                crash_loop::counted(old(self).crashes@, now)
            } else {
                old(self).crashes@
            },
    {
        match event {
            SurfaceEvent::Idle => {
                if self.shutting_down {
                    SurfaceAction::Stop
                } else if enabled {
                    SurfaceAction::Launch
                } else {
                    SurfaceAction::IdleLater
                }
            },
            SurfaceEvent::LaunchFailed => SurfaceAction::GiveUp,
            SurfaceEvent::Launched => SurfaceAction::Watch,
            SurfaceEvent::Running => {
                if self.shutting_down {
                    SurfaceAction::Idle
                } else if enabled {
                    SurfaceAction::WatchLater
                } else {
                    SurfaceAction::Kill
                }
            },
            SurfaceEvent::Exited => {
                if self.shutting_down {
                    SurfaceAction::Stop
                } else if crash_loop::note_exit(&mut self.crashes, now) {
                    SurfaceAction::GiveUp
                } else {
                    SurfaceAction::Idle
                }
            },
            SurfaceEvent::Taken => SurfaceAction::Idle,
        }
    }

    /// The shell itself is exiting on purpose: the taskbar it is about to kill
    /// is not to be relaunched.
    pub fn shutdown(&mut self)
        ensures
            final(self).shutting_down,
            final(self).crashes == old(self).crashes,
    {
        self.shutting_down = true;
    }
}

/// Only an exit counts toward the cap: a taskbar that was stopped on purpose
/// does not, and is not given up on.
pub proof fn law_stopping_on_purpose_is_no_crash(s: Surfaces, enabled: bool, now: u64)
    ensures
        surface_action(s, SurfaceEvent::Taken, enabled, now) == SurfaceAction::Idle,
        surface_action(s, SurfaceEvent::Running, enabled, now) != SurfaceAction::GiveUp,
        surface_action(s, SurfaceEvent::Idle, enabled, now) != SurfaceAction::GiveUp,
{
}

/// A taskbar that the config switches off is not launched, and is killed where
/// it runs; one that is switched on is launched again.
pub proof fn law_config_switches_the_taskbar(s: Surfaces, now: u64)
    requires
        !s.shutting_down,
    ensures
        surface_action(s, SurfaceEvent::Idle, false, now) == SurfaceAction::IdleLater,
        surface_action(s, SurfaceEvent::Running, false, now) == SurfaceAction::Kill,
        surface_action(s, SurfaceEvent::Idle, true, now) == SurfaceAction::Launch,
        surface_action(s, SurfaceEvent::Running, true, now) == SurfaceAction::WatchLater,
{
}

/// A shell that shuts down launches no taskbar.
pub proof fn law_shutdown_launches_no_taskbar(
    s: Surfaces,
    event: SurfaceEvent,
    enabled: bool,
    now: u64,
)
    requires
        s.shutting_down,
    ensures
        surface_action(s, event, enabled, now) != SurfaceAction::Launch,
{
}

/// What the supervisor is told, event by event: it stops for good only where the
/// shell goes away, gives up only on a taskbar that would not launch or exits
/// more than three times in twenty seconds, and otherwise tries again.
pub proof fn law_the_taskbar_is_kept_up(s: Surfaces, enabled: bool, now: u64)
    ensures
        s.shutting_down ==> surface_action(s, SurfaceEvent::Idle, enabled, now)
            == SurfaceAction::Stop && surface_action(s, SurfaceEvent::Running, enabled, now)
            == SurfaceAction::Idle && surface_action(s, SurfaceEvent::Exited, enabled, now)
            == SurfaceAction::Stop,
        surface_action(s, SurfaceEvent::LaunchFailed, enabled, now) == SurfaceAction::GiveUp,
        surface_action(s, SurfaceEvent::Launched, enabled, now) == SurfaceAction::Watch,
        surface_action(s, SurfaceEvent::Taken, enabled, now) == SurfaceAction::Idle,
        !s.shutting_down ==> surface_action(s, SurfaceEvent::Exited, enabled, now) == if
            crash_loop::recent(s.crashes@, now).len() >= 3 {
            SurfaceAction::GiveUp
        } else {
            SurfaceAction::Idle
        },
        DISABLED_POLL_MS == 1_000,
        WATCH_POLL_MS == 200,
{
    crash_loop::law_exits_count_for_twenty_seconds(s.crashes@, now, now);
}

} // verus!
