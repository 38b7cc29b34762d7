//! The watchdog: the guardian process that supervises the shell, answers its
//! heartbeats and brings the stock desktop back when the shell cannot be saved.
//!
//! [`Guardian`] is the state its threads share. The supervisor thread reports
//! what it saw of the shell to [`Guardian::supervise_shell`] and does what it is
//! told; the pipe thread does the same with [`Guardian::serve_pipe`] and
//! [`Guardian::on_message`]. Times are nanoseconds on a monotonic clock.
use vstd::prelude::*;

use crate::crash_loop;
use crate::ipc::{ToShell, ToWatchdog};
use crate::ipc;
use crate::number;
use crate::text;

verus! {

/// A healthy pipe thread stamps itself every 200 ms; if it has not within this
/// bound (two seconds), its heartbeat bookkeeping cannot be trusted. Kept well
/// under the heartbeat timeout, and generous enough for scheduling stalls.
pub const PIPE_OBSERVING_BOUND_NS: u64 = 2_000_000_000;

/// How long the supervisor and the pipe thread wait between two looks, in
/// milliseconds.
pub const POLL_MS: u64 = 200;

/// The state shared between the supervisor, the pipe thread and the hotkey.
#[derive(Debug, Clone, PartialEq, Eq)]
pub struct Guardian {
    /// Set when tearing down on purpose (hotkey or crash loop).
    pub shutting_down: bool,
    /// Whether recovery has begun; it runs at most once.
    pub recovered: bool,
    /// When the current shell last heartbeated. `None` until it does: a shell
    /// that never connects is degraded but alive, and is never killed for
    /// silence.
    pub shell_heartbeat: Option<u64>,
    /// Liveness stamp of the pipe thread while a client is connected. Stale
    /// heartbeats are only evidence against the *shell* if the thread recording
    /// them is itself alive.
    pub pipe_alive: Option<u64>,
    /// Liveness stamp of the supervisor thread. Heartbeats are not acknowledged
    /// while it is stale: a wedged supervisor must look *hung* to the shell.
    pub supervisor_alive: u64,
    /// When the shell exited lately.
    pub crashes: Vec<u64>,
}

/// What the supervisor saw.
#[derive(Debug, Clone, Copy, PartialEq, Eq, Structural)]
pub enum ShellEvent {
    /// It is about to launch a shell.
    Ready,
    /// The shell would not launch.
    LaunchFailed,
    /// The shell was launched.
    Launched,
    /// The shell is running.
    Running,
    /// The shell exited.
    Exited,
    /// Waiting on the shell failed.
    WaitFailed,
    /// The shell was taken and killed by recovery.
    Taken,
}

/// Why the stock desktop is brought back.
#[derive(Debug, Clone, Copy, PartialEq, Eq, Structural)]
pub enum Reason {
    WouldNotLaunch,
    WaitFailed,
    CrashLoop,
    Requested,
    Hotkey,
}

impl Reason {
    /// The reason in words.
    pub open spec fn words_text(self) -> Seq<char> {
        match self {
            Reason::WouldNotLaunch => "shell would not launch"@,
            Reason::WaitFailed => "waiting on shell failed"@,
            Reason::CrashLoop => "shell crash-loop"@,
            Reason::Requested => "restore requested over IPC"@,
            Reason::Hotkey => "emergency hotkey"@,
        }
    }

    /// The reason in words.
    pub fn words(self) -> (r: &'static str)
        ensures
            r@ == self.words_text(),
    {
        match self {
            Reason::WouldNotLaunch => "shell would not launch",
            Reason::WaitFailed => "waiting on shell failed",
            Reason::CrashLoop => "shell crash-loop",
            Reason::Requested => "restore requested over IPC",
            Reason::Hotkey => "emergency hotkey",
        }
    }
}

/// What the supervisor is to do.
#[derive(Debug, Clone, Copy, PartialEq, Eq, Structural)]
pub enum ShellAction {
    /// Launch a shell, telling it which process to watch.
    Launch,
    /// Look at the shell.
    Poll,
    /// Look at the shell after [`POLL_MS`].
    PollLater,
    /// The shell is hung: kill it, and look again after [`POLL_MS`].
    Kill,
    /// The watchdog itself is the hung one: exit, so that the shell relaunches a
    /// fresh watchdog.
    ExitWatchdog,
    /// Recover, and end the watchdog.
    Recover(Reason),
    /// End supervision; recovery owns the rest.
    Stop,
}

/// Whether a stamp is older than the heartbeat timeout.
pub open spec fn is_silent(stamp: Option<u64>, now: u64) -> bool {
    stamp matches Some(t) && now - t > ipc::HEARTBEAT_TIMEOUT_NS
}

/// Whether the pipe thread is observing right now.
pub open spec fn is_observing(stamp: Option<u64>, now: u64) -> bool {
    stamp matches Some(t) && now - t < PIPE_OBSERVING_BOUND_NS
}

/// What a supervisor that sees the shell running is to do.
pub open spec fn verdict(heartbeat: Option<u64>, pipe: Option<u64>, now: u64) -> ShellAction {
    if !is_silent(heartbeat, now) {
        ShellAction::PollLater
    } else if is_observing(pipe, now) {
        ShellAction::Kill
    } else {
        ShellAction::ExitWatchdog
    }
}

/// What the supervisor is to do about an event.
pub open spec fn shell_action(g: Guardian, event: ShellEvent, now: u64) -> ShellAction {
    match event {
        ShellEvent::LaunchFailed => ShellAction::Recover(Reason::WouldNotLaunch),
        ShellEvent::WaitFailed => ShellAction::Recover(Reason::WaitFailed),
        ShellEvent::Launched => ShellAction::Poll,
        _ => if g.shutting_down {
            ShellAction::Stop
        } else {
            match event {
                ShellEvent::Ready => ShellAction::Launch,
                ShellEvent::Running => verdict(g.shell_heartbeat, g.pipe_alive, now),
                ShellEvent::Exited => if crash_loop::counted(g.crashes@, now).len()
                    > crash_loop::CRASH_LIMIT {
                    ShellAction::Recover(Reason::CrashLoop)
                } else {
                    ShellAction::Launch
                },
                _ => ShellAction::Stop,
            }
        },
    }
}

/// Whether an event shows the supervisor at work: it is about to launch, or
/// looked at a shell, and is not shutting down.
pub open spec fn stamps_supervisor(g: Guardian, event: ShellEvent) -> bool {
    !g.shutting_down && event != ShellEvent::LaunchFailed && event != ShellEvent::Launched
}

/// What the pipe thread is to do before it looks for a message.
#[derive(Debug, Clone, Copy, PartialEq, Eq, Structural)]
pub enum PipeAction {
    /// Stop serving.
    Stop,
    /// Send a config reload to the shell (test flag), then go on with the rest
    /// of the pass ([`PipeClocks::after_reload`]).
    SendReload,
    /// Freeze for good, to look hung (test flag).
    Freeze,
    /// Look for a message.
    Receive,
}

/// What the pipe thread is to do about what it received.
#[derive(Debug, Clone, Copy, PartialEq, Eq, Structural)]
pub enum MessageAction {
    /// Send that message to the shell.
    Send(ToShell),
    /// Send nothing: the supervisor is wedged.
    Withhold,
    /// Recover, and stop serving.
    Recover(Reason),
    /// Nothing came: look again after [`POLL_MS`].
    PollLater,
    /// The client is gone: disconnect it and wait for the next.
    Disconnect,
}

/// What the pipe thread received.
#[derive(Debug, Clone, Copy, PartialEq, Eq, Structural)]
pub enum Received {
    /// A message.
    Message(ToWatchdog),
    /// Nothing complete yet.
    Nothing,
    /// The client is gone.
    Gone,
}

/// The test flags of the pipe thread and its clocks: when it started serving,
/// and when it last sent a reload to the current client.
#[derive(Debug, Clone, Copy, PartialEq, Eq, Structural)]
pub struct PipeClocks {
    pub hang_after: Option<u64>,
    pub reload_every: Option<u64>,
    pub started: u64,
    pub last_reload: u64,
}

/// Whether that much time has passed since `since`.
pub open spec fn is_due(every: Option<u64>, since: u64, now: u64) -> bool {
    every matches Some(d) && elapsed(since, now) >= d
}

/// The time from `since` to `now`, none if that lies ahead.
pub open spec fn elapsed(since: u64, now: u64) -> int {
    if now >= since {
        now - since
    } else {
        0
    }
}

/// Whether that much time has passed since `since`.
fn due(every: Option<u64>, since: u64, now: u64) -> (r: bool)
    ensures
        r == is_due(every, since, now),
{
    match every {
        Some(d) => now.saturating_sub(since) >= d,
        None => false,
    }
}

/// What a pass of the pipe thread comes to once no reload is left to send.
pub open spec fn rest_of_pass(clocks: PipeClocks, now: u64) -> PipeAction {
    if is_due(clocks.hang_after, clocks.started, now) {
        PipeAction::Freeze
    } else {
        PipeAction::Receive
    }
}

impl PipeClocks {
    /// What the pipe thread is to do at `now` after it sent a reload: one pass
    /// sends one reload at most, however short the interval, and then freezes or
    /// receives like any other.
    pub fn after_reload(&self, now: u64) -> (action: PipeAction)
        ensures
            action == rest_of_pass(*self, now),
    {
        if due(self.hang_after, self.started, now) {
            return PipeAction::Freeze;
        }
        PipeAction::Receive
    }
}

impl Guardian {
    /// The state of a watchdog that starts at `now`.
    pub fn new(now: u64) -> (r: Self)
        ensures
            !r.shutting_down,
            !r.recovered,
            r.shell_heartbeat is None,
            r.pipe_alive is None,
            r.supervisor_alive == now,
            r.crashes@ == Seq::<u64>::empty(),
    {
        Guardian {
            shutting_down: false,
            recovered: false,
            shell_heartbeat: None,
            pipe_alive: None,
            supervisor_alive: now,
            crashes: Vec::new(),
        }
    }

    /// Spawn and monitor the shell, relaunching on exit and bailing on a crash
    /// loop: what to do about what the supervisor saw at `now`.
    ///
    /// A shell that heartbeated before and has gone silent is hung; killing it
    /// lets the normal exit path take over. Silence only incriminates the shell
    /// if the pipe thread recording the beats is alive right now; if it is not,
    /// the watchdog is the hung process.
    pub fn supervise_shell(&mut self, event: ShellEvent, now: u64) -> (action: ShellAction)
        ensures
            action == shell_action(*old(self), event, now),
            final(self).shutting_down == old(self).shutting_down,
            final(self).recovered == old(self).recovered,
            final(self).pipe_alive == old(self).pipe_alive,
            final(self).supervisor_alive == if stamps_supervisor(*old(self), event) {
                now
            } else {
                old(self).supervisor_alive
            },
            final(self).shell_heartbeat == if event == ShellEvent::Launched || action
                == ShellAction::Kill {
                None
            } else {
                old(self).shell_heartbeat
            },
            final(self).crashes@ == if event == ShellEvent::Exited && !old(self).shutting_down {
                crash_loop::counted(old(self).crashes@, now)
            } else {
                old(self).crashes@
            },
    {
        match event {
            ShellEvent::LaunchFailed => {
                return ShellAction::Recover(Reason::WouldNotLaunch);
            },
            ShellEvent::WaitFailed => {
                if !self.shutting_down {
                    self.supervisor_alive = now;
                }
                return ShellAction::Recover(Reason::WaitFailed);
            },
            ShellEvent::Launched => {
                // A fresh shell starts with a clean heartbeat slate.
                self.shell_heartbeat = None;
                return ShellAction::Poll;
            },
            _ => {},
        }
        if self.shutting_down {
            return ShellAction::Stop;
        }
        self.supervisor_alive = now;
        match event {
            ShellEvent::Ready => ShellAction::Launch,
            ShellEvent::Running => {
                let hung: bool = match self.shell_heartbeat {
                    Some(t) => now.saturating_sub(t) > ipc::HEARTBEAT_TIMEOUT_NS,
                    None => false,
                };
                if !hung {
                    return ShellAction::PollLater;
                }
                let observing: bool = match self.pipe_alive {
                    Some(t) => now.saturating_sub(t) < PIPE_OBSERVING_BOUND_NS,
                    None => false,
                };
                if !observing {
                    return ShellAction::ExitWatchdog;
                }
                self.shell_heartbeat = None;
                ShellAction::Kill
            },
            ShellEvent::Exited => {
                if crash_loop::note_exit(&mut self.crashes, now) {
                    ShellAction::Recover(Reason::CrashLoop)
                } else {
                    ShellAction::Launch
                }
            },
            _ => ShellAction::Stop,
        }
    }

    /// Begin recovery. Returns whether it is this call that is to recover: it
    /// is the first one only.
    pub fn recover(&mut self) -> (first: bool)
        ensures
            first == !old(self).recovered,
            final(self).recovered,
            first ==> final(self).shutting_down,
            !first ==> final(self).shutting_down == old(self).shutting_down,
            final(self).shell_heartbeat == old(self).shell_heartbeat,
            final(self).pipe_alive == old(self).pipe_alive,
            final(self).supervisor_alive == old(self).supervisor_alive,
            final(self).crashes == old(self).crashes,
    {
        if self.recovered {
            return false;
        }
        self.recovered = true;
        self.shutting_down = true;
        true
    }

    /// What the pipe thread, with a client connected, is to do at `now` before
    /// it looks for a message.
    pub fn serve_pipe(&mut self, clocks: &mut PipeClocks, now: u64) -> (action: PipeAction)
        ensures
            action == if old(self).shutting_down {
                PipeAction::Stop
            } else if is_due(old(clocks).reload_every, old(clocks).last_reload, now) {
                PipeAction::SendReload
            } else {
                rest_of_pass(*old(clocks), now)
            },
            final(self).pipe_alive == if old(self).shutting_down {
                old(self).pipe_alive
            } else {
                Some(now)
            },
            final(self).shutting_down == old(self).shutting_down,
            final(self).recovered == old(self).recovered,
            final(self).shell_heartbeat == old(self).shell_heartbeat,
            final(self).supervisor_alive == old(self).supervisor_alive,
            final(self).crashes == old(self).crashes,
            final(clocks).hang_after == old(clocks).hang_after,
            final(clocks).reload_every == old(clocks).reload_every,
            final(clocks).started == old(clocks).started,
            final(clocks).last_reload == if action == PipeAction::SendReload {
                now
            } else {
                old(clocks).last_reload
            },
    {
        if self.shutting_down {
            return PipeAction::Stop;
        }
        self.pipe_alive = Some(now);
        if due(clocks.reload_every, clocks.last_reload, now) {
            clocks.last_reload = now;
            return PipeAction::SendReload;
        }
        clocks.after_reload(now)
    }

    /// What the pipe thread is to do about what it received at `now`. `own` is
    /// the watchdog's process id.
    ///
    /// An acknowledgement vouches for the whole watchdog, not just for the pipe
    /// thread: while the supervisor is wedged it is withheld, so that the shell
    /// treats this watchdog as hung and replaces it.
    pub fn on_message(&mut self, received: Received, own: u32, now: u64) -> (action: MessageAction)
        ensures
            action == message_action(*old(self), received, own, now),
            final(self).shell_heartbeat == match received {
                Received::Message(ToWatchdog::ShellHeartbeat { .. }) => Some(now),
                Received::Gone => None,
                _ => old(self).shell_heartbeat,
            },
            final(self).pipe_alive == if received == Received::Gone {
                None
            } else {
                old(self).pipe_alive
            },
            final(self).shutting_down == old(self).shutting_down,
            final(self).recovered == old(self).recovered,
            final(self).supervisor_alive == old(self).supervisor_alive,
            final(self).crashes == old(self).crashes,
    {
        match received {
            Received::Message(ToWatchdog::ShellHeartbeat { seq, pid }) => {
                self.shell_heartbeat = Some(now);
                if now.saturating_sub(self.supervisor_alive) > ipc::HEARTBEAT_TIMEOUT_NS {
                    MessageAction::Withhold
                } else {
                    MessageAction::Send(ToShell::HeartbeatAck { seq, pid: own })
                }
            },
            Received::Message(ToWatchdog::RequestRestore) => {
                MessageAction::Recover(Reason::Requested)
            },
            Received::Nothing => MessageAction::PollLater,
            Received::Gone => {
                self.disconnected();
                MessageAction::Disconnect
            },
        }
    }

    /// The client is gone: its last heartbeat must not get its successor killed
    /// for silence it never produced, and the pipe thread's stamp only means
    /// something while a client is connected.
    pub fn disconnected(&mut self)
        ensures
            final(self).shell_heartbeat is None,
            final(self).pipe_alive is None,
            final(self).shutting_down == old(self).shutting_down,
            final(self).recovered == old(self).recovered,
            final(self).supervisor_alive == old(self).supervisor_alive,
            final(self).crashes == old(self).crashes,
    {
        self.shell_heartbeat = None;
        self.pipe_alive = None;
    }
}

/// What the pipe thread is to do about what it received.
pub open spec fn message_action(
    g: Guardian,
    received: Received,
    own: u32,
    now: u64,
) -> MessageAction {
    match received {
        Received::Message(ToWatchdog::ShellHeartbeat { seq, pid }) => if now - g.supervisor_alive
            > ipc::HEARTBEAT_TIMEOUT_NS {
            MessageAction::Withhold
        } else {
            MessageAction::Send(ToShell::HeartbeatAck { seq, pid: own })
        },
        Received::Message(ToWatchdog::RequestRestore) => MessageAction::Recover(Reason::Requested),
        Received::Nothing => MessageAction::PollLater,
        Received::Gone => MessageAction::Disconnect,
    }
}

/// A shell that has not heartbeated since it was launched is never killed for
/// silence, and never makes the watchdog exit.
pub proof fn law_silent_newcomers_are_never_killed(g: Guardian, now: u64)
    requires
        g.shell_heartbeat is None,
        !g.shutting_down,
    ensures
        shell_action(g, ShellEvent::Running, now) == ShellAction::PollLater,
{
}

/// A running shell is killed only where its heartbeats have stopped for longer
/// than the timeout while the pipe thread was there to see them; where the pipe
/// thread was not, it is the watchdog that goes.
pub proof fn law_only_the_hung_process_goes(g: Guardian, now: u64)
    requires
        !g.shutting_down,
    ensures
        shell_action(g, ShellEvent::Running, now) == ShellAction::Kill <==> is_silent(
            g.shell_heartbeat,
            now,
        ) && is_observing(g.pipe_alive, now),
        shell_action(g, ShellEvent::Running, now) == ShellAction::ExitWatchdog <==> is_silent(
            g.shell_heartbeat,
            now,
        ) && !is_observing(g.pipe_alive, now),
{
}

/// A pipe thread that froze right after recording a beat stops counting as an
/// observer before the silence it causes can be held against the shell.
pub proof fn law_frozen_pipe_never_shoots_the_shell(g: Guardian, beat: u64, stamp: u64, now: u64)
    requires
        !g.shutting_down,
        g.shell_heartbeat == Some(beat),
        g.pipe_alive == Some(stamp),
        beat <= now,
        stamp <= beat + (ipc::HEARTBEAT_TIMEOUT_NS - PIPE_OBSERVING_BOUND_NS),
    ensures
        shell_action(g, ShellEvent::Running, now) != ShellAction::Kill,
{
}

/// Acknowledgements are withheld exactly while the supervisor is wedged, and
/// otherwise echo the beat with the watchdog's own process id.
pub proof fn law_acks_vouch_for_the_supervisor(g: Guardian, seq: u64, pid: u32, own: u32, now: u64)
    ensures
        ({
            let beat = Received::Message(ToWatchdog::ShellHeartbeat { seq, pid });
            let action = message_action(g, beat, own, now);
            if now - g.supervisor_alive > ipc::HEARTBEAT_TIMEOUT_NS {
                action == MessageAction::Withhold
            } else {
                action == MessageAction::Send(ToShell::HeartbeatAck { seq, pid: own })
            }
        }),
{
}

/// Whatever happens while the watchdog shuts down, no further shell is
/// launched and none is killed.
pub proof fn law_shutdown_launches_nothing(g: Guardian, event: ShellEvent, now: u64)
    requires
        g.shutting_down,
    ensures
        shell_action(g, event, now) != ShellAction::Launch,
        shell_action(g, event, now) != ShellAction::Kill,
        shell_action(g, event, now) != ShellAction::ExitWatchdog,
{
}

/// A shell that exits is relaunched, unless this is more than the limit of
/// exits within the window: then the stock desktop is brought back.
pub proof fn law_crash_loop_brings_the_desktop_back(g: Guardian, now: u64)
    requires
        !g.shutting_down,
    ensures
        shell_action(g, ShellEvent::Exited, now) == ShellAction::Recover(Reason::CrashLoop)
            <==> crash_loop::recent(g.crashes@, now).len() >= crash_loop::CRASH_LIMIT,
        shell_action(g, ShellEvent::Exited, now) == ShellAction::Launch <==> crash_loop::recent(
            g.crashes@,
            now,
        ).len() < crash_loop::CRASH_LIMIT,
{
}

/// Where a recovery is: what to do next, or that it is over.
#[derive(Debug, Clone, Copy, PartialEq, Eq, Structural)]
pub enum RecoverStep {
    /// Kill the shell and wait for it to go.
    KillShell,
    /// Kill the surfaces it left: they outlive it, and must not stay on screen
    /// beside the stock desktop.
    SweepSurfaces,
    /// Restore the shell registry.
    RestoreRegistry,
    /// See whether a desktop shell is on screen.
    CheckDesktop,
    /// Launch the stock desktop.
    LaunchDesktop,
    /// Windows is back.
    Done,
}

/// The step after `step`. At [`RecoverStep::CheckDesktop`] the result is
/// whether a desktop shell is on screen; the others are best-effort.
pub open spec fn recover_next(step: RecoverStep, result: bool) -> RecoverStep {
    match step {
        RecoverStep::KillShell => RecoverStep::SweepSurfaces,
        RecoverStep::SweepSurfaces => RecoverStep::RestoreRegistry,
        RecoverStep::RestoreRegistry => RecoverStep::CheckDesktop,
        RecoverStep::CheckDesktop => if result {
            RecoverStep::Done
        } else {
            RecoverStep::LaunchDesktop
        },
        RecoverStep::LaunchDesktop => RecoverStep::Done,
        RecoverStep::Done => RecoverStep::Done,
    }
}

/// The next step of the recovery: put the original shell back and bring the
/// desktop back up. It starts at [`RecoverStep::KillShell`].
pub fn recover_step(step: RecoverStep, result: bool) -> (r: RecoverStep)
    ensures
        r == recover_next(step, result),
{
    match step {
        RecoverStep::KillShell => RecoverStep::SweepSurfaces,
        RecoverStep::SweepSurfaces => RecoverStep::RestoreRegistry,
        RecoverStep::RestoreRegistry => RecoverStep::CheckDesktop,
        RecoverStep::CheckDesktop => if result {
            RecoverStep::Done
        } else {
            RecoverStep::LaunchDesktop
        },
        RecoverStep::LaunchDesktop => RecoverStep::Done,
        RecoverStep::Done => RecoverStep::Done,
    }
}

/// Where a recovery is after steps with these results.
pub open spec fn recover_walk(results: Seq<bool>) -> RecoverStep
    decreases results.len(),
{
    if results.len() == 0 {
        RecoverStep::KillShell
    } else {
        recover_next(recover_walk(results.drop_last()), results.last())
    }
}

/// Recovery always gets through, whatever fails on the way: the surfaces are
/// swept after the shell is gone, so that it starts no more, the registry is
/// restored after that, the stock desktop is launched exactly where no desktop
/// shell is on screen then, and after five steps it is over.
pub proof fn law_recovery_always_gets_through(results: Seq<bool>)
    ensures
        results.len() == 1 ==> recover_walk(results) == RecoverStep::SweepSurfaces,
        results.len() == 2 ==> recover_walk(results) == RecoverStep::RestoreRegistry,
        results.len() == 3 ==> recover_walk(results) == RecoverStep::CheckDesktop,
        results.len() == 4 ==> recover_walk(results) == if results[3] {
            RecoverStep::Done
        } else {
            RecoverStep::LaunchDesktop
        },
        results.len() >= 5 ==> recover_walk(results) == RecoverStep::Done,
    decreases results.len(),
{
    if results.len() > 0 {
        law_recovery_always_gets_through(results.drop_last());
        assert(results.last() == results[results.len() - 1]);
        if results.len() == 1 {
            assert(recover_walk(results.drop_last()) == RecoverStep::KillShell);
        }
    }
}

/// The first argument that starts with `prefix` and has a number behind it.
pub open spec fn first_number(args: Seq<Seq<char>>, prefix: Seq<char>) -> Option<int>
    decreases args.len(),
{
    if args.len() == 0 {
        None
    } else {
        match first_number(args.drop_last(), prefix) {
            Some(n) => Some(n),
            None => if text::starts_with(args.last(), prefix) {
                number::decimal_number(args.last().skip(prefix.len() as int), u64::MAX as int)
            } else {
                None
            },
        }
    }
}

/// The number behind the first argument that starts with `prefix` and has one.
pub fn number_option(args: &Vec<String>, prefix: &str) -> (r: Option<u64>)
    ensures
        match r {
            Some(n) => first_number(text::texts(args@), prefix@) == Some(n as int),
            None => first_number(text::texts(args@), prefix@) is None,
        },
{
    let mut i: usize = 0;
    let ghost all = text::texts(args@);
    while i < args.len()
        invariant
            i <= args@.len(),
            all == text::texts(args@),
            first_number(all.take(i as int), prefix@) is None,
        decreases args@.len() - i,
    {
        proof {
            assert(all.take(i + 1).drop_last() =~= all.take(i as int));
            assert(all.take(i + 1).last() == args@[i as int]@);
        }
        if let Some(rest) = text::strip_prefix(args[i].as_str(), prefix) {
            if let Some(n) = number::parse_number(rest.as_str(), u64::MAX) {
                proof {
                    lemma_first_number_prefix(all, i + 1, prefix@);
                }
                return Some(n);
            }
        }
        i = i + 1;
    }
    proof {
        assert(all.take(all.len() as int) =~= all);
    }
    None
}

proof fn lemma_first_number_prefix(args: Seq<Seq<char>>, n: int, prefix: Seq<char>)
    requires
        0 <= n <= args.len(),
        first_number(args.take(n), prefix) is Some,
    ensures
        first_number(args, prefix) == first_number(args.take(n), prefix),
    decreases args.len() - n,
{
    if n < args.len() {
        assert(args.take(n + 1).drop_last() =~= args.take(n));
        lemma_first_number_prefix(args, n + 1, prefix);
    } else {
        assert(args.take(n) =~= args);
    }
}

/// What is done about a shell that runs: it is let be while its beats are no older
/// than five seconds, or have not begun. Silent for longer it is killed where the
/// pipe was served within the last two seconds, and where it was not the watchdog
/// itself goes.
pub proof fn law_silence_is_held_against_who_is_silent(
    g: Guardian,
    beat: Option<u64>,
    pipe: Option<u64>,
    now: u64,
)
    requires
        g.shell_heartbeat == beat,
        g.pipe_alive == pipe,
        !g.shutting_down,
    ensures
        ({
            let action = shell_action(g, ShellEvent::Running, now);
            let silent = beat is Some && now > (beat->0) + 5_000_000_000;
            let served = pipe is Some && now < (pipe->0) + 2_000_000_000;
            &&& action == ShellAction::PollLater <==> !silent
            &&& action == ShellAction::Kill <==> silent && served
            &&& action == ShellAction::ExitWatchdog <==> silent && !served
        }),
{
}

/// What is done about every other event. A shell that will not launch, or cannot be
/// waited for, brings Windows back whatever else is going on; a launched one is
/// looked at. While shutting down everything else ends supervision; otherwise a
/// shell is launched, again after each exit, up to the fourth within the window.
pub proof fn law_supervision_answers_every_event(g: Guardian, now: u64)
    ensures
        shell_action(g, ShellEvent::LaunchFailed, now) == ShellAction::Recover(
            Reason::WouldNotLaunch,
        ),
        shell_action(g, ShellEvent::WaitFailed, now) == ShellAction::Recover(Reason::WaitFailed),
        shell_action(g, ShellEvent::Launched, now) == ShellAction::Poll,
        shell_action(g, ShellEvent::Ready, now) == if g.shutting_down {
            ShellAction::Stop
        } else {
            ShellAction::Launch
        },
        g.shutting_down ==> shell_action(g, ShellEvent::Running, now) == ShellAction::Stop,
        shell_action(g, ShellEvent::Exited, now) == if g.shutting_down {
            ShellAction::Stop
        } else if crash_loop::recent(g.crashes@, now).len() >= 3 {
            ShellAction::Recover(Reason::CrashLoop)
        } else {
            ShellAction::Launch
        },
        shell_action(g, ShellEvent::Taken, now) == ShellAction::Stop,
{
}

/// The supervisor's stamp is renewed whenever it is about to launch or looked at a
/// shell, unless it shuts down.
pub proof fn law_the_supervisor_stamps_its_rounds(g: Guardian, event: ShellEvent)
    ensures
        stamps_supervisor(g, event) <==> !g.shutting_down && (event == ShellEvent::Ready || event
            == ShellEvent::Running || event == ShellEvent::Exited || event
            == ShellEvent::WaitFailed || event == ShellEvent::Taken),
{
}

/// A beat is acknowledged with its own number and the watchdog's process id, unless
/// the supervisor has been still for more than five seconds. A request to restore
/// does so; a client that is gone is disconnected.
pub proof fn law_messages_are_answered(g: Guardian, seq: u64, pid: u32, own: u32, now: u64)
    ensures
        message_action(
            g,
            Received::Message(ToWatchdog::ShellHeartbeat { seq, pid }),
            own,
            now,
        ) == if now > g.supervisor_alive + 5_000_000_000 {
            MessageAction::Withhold
        } else {
            MessageAction::Send(ToShell::HeartbeatAck { seq, pid: own })
        },
        message_action(g, Received::Message(ToWatchdog::RequestRestore), own, now)
            == MessageAction::Recover(Reason::Requested),
        message_action(g, Received::Nothing, own, now) == MessageAction::PollLater,
        message_action(g, Received::Gone, own, now) == MessageAction::Disconnect,
{
}

/// A test flag is due once that much time has passed since its start, and never
/// where it is not given; only the flag to freeze ends a pass.
pub proof fn law_test_flags_are_due_after_their_time(
    every: Option<u64>,
    since: u64,
    clocks: PipeClocks,
    now: u64,
)
    ensures
        every is None ==> !is_due(every, since, now),
        every is Some && now >= since ==> (is_due(every, since, now) <==> now - since >= (
        every->0)),
        every is Some && now < since ==> (is_due(every, since, now) <==> (every->0) == 0),
        rest_of_pass(clocks, now) == PipeAction::Freeze <==> is_due(
            clocks.hang_after,
            clocks.started,
            now,
        ),
        rest_of_pass(clocks, now) == PipeAction::Freeze || rest_of_pass(clocks, now)
            == PipeAction::Receive,
{
}

/// A number option is the number behind the first argument that has the prefix and
/// a number.
pub proof fn law_the_first_number_option_counts(
    args: Seq<Seq<char>>,
    arg: Seq<char>,
    prefix: Seq<char>,
    value: Seq<char>,
)
    ensures
        first_number(Seq::empty(), prefix) is None,
        first_number(args, prefix) is Some ==> first_number(args.push(arg), prefix) == first_number(
            args,
            prefix,
        ),
        first_number(args, prefix) is None ==> first_number(args.push(prefix + value), prefix)
            == number::decimal_number(value, 0xffff_ffff_ffff_ffff),
        first_number(args, prefix) is None && !(exists|b: Seq<char>| arg == #[trigger] (prefix + b))
            ==> first_number(args.push(arg), prefix) is None,
{
    assert(args.push(arg).drop_last() =~= args);
    assert(args.push(arg).last() == arg);
    let full = prefix + value;
    assert(args.push(full).drop_last() =~= args);
    assert(args.push(full).last() == full);
    assert(full.take(prefix.len() as int) =~= prefix);
    assert(full.skip(prefix.len() as int) =~= value);
    text::law_parts_stand_anywhere(arg, prefix);
}

/// The reasons in words.
pub proof fn law_reasons_are_given_in_words(reason: Reason)
    ensures
        reason.words_text() == match reason {
            Reason::WouldNotLaunch => "shell would not launch"@,
            Reason::WaitFailed => "waiting on shell failed"@,
            Reason::CrashLoop => "shell crash-loop"@,
            Reason::Requested => "restore requested over IPC"@,
            Reason::Hotkey => "emergency hotkey"@,
        },
{
}

/// How long the watchdog waits.
pub proof fn law_the_watchdog_has_its_times()
    ensures
        PIPE_OBSERVING_BOUND_NS == 2_000_000_000,
        POLL_MS == 200,
{
}

} // verus!
