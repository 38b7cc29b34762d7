//! The shell's half of the mutual supervision: heartbeats to the watchdog, and
//! what is done about a watchdog that hangs or dies.
//!
//! A hung watchdog has a dead emergency hotkey, so it is killed, which turns
//! the hang into a death. A dead watchdog is relaunched, up to the cap of
//! [`RelaunchState`]; past it the shell restores Windows itself.
use vstd::prelude::*;

use crate::guardian::{self, RelaunchState};
use crate::ipc::{ToShell, ToWatchdog, HEARTBEAT_TIMEOUT_NS};

verus! {

/// The heartbeats of one shell.
#[derive(Debug, Clone, Copy, PartialEq, Eq)]
pub struct Heartbeat {
    /// The number of the next beat.
    pub seq: u64,
    /// The last acknowledgement on this connection: when it came, and the
    /// watchdog it came from. `None` until one comes.
    pub acked: Option<(u64, u32)>,
}

/// What a message from the watchdog asks of the shell.
#[derive(Debug, Clone, Copy, PartialEq, Eq, Structural)]
pub enum Request {
    Nothing,
    /// Re-read the configuration and tell the surfaces.
    Reload,
    /// Take the surfaces down and exit.
    Shutdown,
}

/// The watchdog that is hung at `now`, if one is: it acknowledged before, and
/// has been silent for too long.
pub open spec fn hung(beat: Heartbeat, now: u64) -> Option<u32> {
    match beat.acked {
        Some((at, pid)) => if now - at > HEARTBEAT_TIMEOUT_NS {
            Some(pid)
        } else {
            None
        },
        None => None,
    }
}

impl Heartbeat {
    /// No beat sent yet.
    pub fn new() -> (r: Self)
        ensures
            r == (Heartbeat { seq: 0, acked: None }),
    {
        Heartbeat { seq: 0, acked: None }
    }

    /// The next beat, from the process `own`.
    pub fn beat(&mut self, own: u32) -> (r: ToWatchdog)
        ensures
            r == (ToWatchdog::ShellHeartbeat { seq: old(self).seq, pid: own }),
            final(self).acked == old(self).acked,
            final(self).seq == if old(self).seq == u64::MAX {
                0
            } else {
                old(self).seq + 1
            },
    {
        let seq: u64 = self.seq;
        self.seq = if seq == u64::MAX {
            0
        } else {
            seq + 1
        };
        ToWatchdog::ShellHeartbeat { seq, pid: own }
    }

    /// A message came at `now`: take note of an acknowledgement, whose sender
    /// is the watchdog to kill should it hang.
    pub fn on_message(&mut self, message: ToShell, now: u64) -> (r: Request)
        ensures
            final(self).seq == old(self).seq,
            final(self).acked == match message {
                ToShell::HeartbeatAck { pid, .. } => Some((now, pid)),
                _ => old(self).acked,
            },
            r == match message {
                ToShell::HeartbeatAck { .. } => Request::Nothing,
                ToShell::ReloadConfig => Request::Reload,
                ToShell::Shutdown => Request::Shutdown,
            },
    {
        match message {
            ToShell::HeartbeatAck { pid, .. } => {
                self.acked = Some((now, pid));
                Request::Nothing
            },
            ToShell::ReloadConfig => Request::Reload,
            ToShell::Shutdown => Request::Shutdown,
        }
    }

    /// The watchdog to kill at `now`, if it is hung.
    pub fn hung_watchdog(&self, now: u64) -> (r: Option<u32>)
        ensures
            r == hung(*self, now),
    {
        match self.acked {
            Some((at, pid)) => if now.saturating_sub(at) > HEARTBEAT_TIMEOUT_NS {
                Some(pid)
            } else {
                None
            },
            None => None,
        }
    }

    /// The pipe broke, or the watchdog was killed: what the next one is silent
    /// about is no evidence against it until it acknowledges.
    pub fn disconnected(&mut self)
        ensures
            *final(self) == (Heartbeat { acked: None, ..*old(self) }),
    {
        self.acked = None;
    }
}

/// A watchdog is never killed before it has acknowledged on the connection at
/// hand, nor within the timeout of its last acknowledgement.
pub proof fn law_only_silence_after_an_answer_counts(beat: Heartbeat, now: u64)
    ensures
        beat.acked is None ==> hung(beat, now) is None,
        beat.acked matches Some((at, _)) ==> now <= at + HEARTBEAT_TIMEOUT_NS ==> hung(beat, now)
            is None,
{
}

/// What is done about a dead watchdog.
#[derive(Debug, Clone, Copy, PartialEq, Eq, Structural)]
pub enum Successor {
    /// Launch another, and hand it this accounting.
    Relaunch(RelaunchState),
    /// Stop relaunching and restore Windows.
    RestoreWindows,
}

/// What is done about a watchdog that died at `now`.
pub open spec fn successor(state: RelaunchState, now: u64) -> Successor {
    if !guardian::window_over(state, now) && state.count >= guardian::RELAUNCH_LIMIT {
        Successor::RestoreWindows
    } else {
        Successor::Relaunch(guardian::bumped(state, now))
    }
}

/// What is done about a watchdog that died at `now` (in Unix seconds), given
/// the relaunches so far.
pub fn watchdog_died(state: RelaunchState, now: u64) -> (r: Successor)
    ensures
        r == successor(state, now),
{
    if state.count == u32::MAX && now.saturating_sub(state.first_unix_secs)
        <= guardian::RELAUNCH_WINDOW_SECS {
        return Successor::RestoreWindows;
    }
    let next = state.bump(now);
    if next.exhausted() {
        Successor::RestoreWindows
    } else {
        Successor::Relaunch(next)
    }
}

/// The accounting after watchdogs died at the given times, in order, as long as
/// each was relaunched; `None` once Windows was restored.
pub open spec fn after_deaths(state: RelaunchState, times: Seq<u64>) -> Option<RelaunchState>
    decreases times.len(),
{
    if times.len() == 0 {
        Some(state)
    } else {
        match after_deaths(state, times.drop_last()) {
            Some(before) => match successor(before, times.last()) {
                Successor::Relaunch(next) => Some(next),
                Successor::RestoreWindows => None,
            },
            None => None,
        }
    }
}

/// A watchdog that keeps dying within one window is relaunched up to the limit
/// and no more often.
pub proof fn law_a_runaway_watchdog_restores_windows(times: Seq<u64>)
    requires
        forall|i: int|
            0 <= i < times.len() ==> #[trigger] times[i] - times[0]
                <= guardian::RELAUNCH_WINDOW_SECS,
    ensures
        after_deaths(guardian::fresh(), times) is Some <==> times.len() <= guardian::RELAUNCH_LIMIT,
        after_deaths(guardian::fresh(), times) matches Some(state) ==> {
            &&& state.count == times.len()
            &&& times.len() > 0 ==> state.first_unix_secs == times[0]
        },
    decreases times.len(),
{
    if times.len() > 0 {
        let init = times.drop_last();
        assert forall|i: int| 0 <= i < init.len() implies #[trigger] init[i] - init[0]
            <= guardian::RELAUNCH_WINDOW_SECS by {
            assert(init[i] == times[i]);
            assert(init[0] == times[0]);
        }
        law_a_runaway_watchdog_restores_windows(init);
        if init.len() > 0 {
            assert(init[0] == times[0]);
        }
        assert(times.last() == times[times.len() - 1]);
    }
}

/// A watchdog is killed exactly where it has acknowledged on this connection and
/// more than five seconds have passed since.
pub proof fn law_five_silent_seconds_are_a_hang(seq: u64, at: u64, pid: u32, now: u64)
    ensures
        hung(Heartbeat { seq, acked: Some((at, pid)) }, now) == if now > at + 5_000_000_000 {
            Some(pid)
        } else {
            None
        },
        hung(Heartbeat { seq, acked: None }, now) is None,
{
}

/// A watchdog that died is relaunched, with one more relaunch on its account,
/// unless there were three within the last minute: then Windows is restored.
pub proof fn law_a_dead_watchdog_is_relaunched_three_times_a_minute(
    state: RelaunchState,
    now: u64,
)
    requires
        state.count < u32::MAX,
    ensures
        ({
            let runaway = state.count >= 3 && now <= state.first_unix_secs + 60;
            &&& runaway <==> successor(state, now) == Successor::RestoreWindows
            &&& !runaway ==> successor(state, now) == Successor::Relaunch(
                if state.count > 0 && now <= state.first_unix_secs + 60 {
                    RelaunchState {
                        count: (state.count + 1) as u32,
                        first_unix_secs: state.first_unix_secs,
                    }
                } else {
                    RelaunchState { count: 1, first_unix_secs: now }
                },
            )
        }),
{
}

} // verus!
