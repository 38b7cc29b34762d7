//! Safe-apply: the sequence the manager runs when the user commits a restyle,
//! and the matching teardown. The order keeps the prime invariant ("we must
//! always be able to put explorer back") even if the machine stops between any
//! two steps:
//!
//! 1. **Preflight**: the sibling binaries are all present. A swap that points
//!    the shell at a missing watchdog would brick the next logon.
//! 2. **Write config**: before the swap, so that the first swapped logon
//!    already reflects the choices.
//! 3. **Trial run**: prove that the shell binary runs on this machine while
//!    the stock desktop is still the shell and a failure costs nothing.
//! 4. **Back up and swap**: only now touch the registry.
//! 5. **Recovery instructions**: every time.
//!
//! Each sequence is a state machine: it names the next thing to do, the caller
//! does it and hands back what came of it.
use vstd::prelude::*;

use crate::paths;
use crate::shell::{self, BackupMarker, RegistryModel};
use crate::text;

verus! {

/// The binaries that must sit next to the installer for a swap to be safe. The
/// registry value points at the watchdog, which spawns the shell, which spawns
/// the taskbar: all three must exist.
pub const REQUIRED_BINARIES: [&'static str; 3] = [
    crate::WATCHDOG_EXE,
    crate::SHELL_EXE,
    crate::TASKBAR_EXE,
];

/// The names a list of answers says no to, in order.
pub open spec fn denied(names: Seq<&'static str>, answers: Seq<bool>) -> Seq<&'static str>
    decreases names.len(),
{
    if names.len() == 0 {
        Seq::empty()
    } else {
        let rest = denied(names.drop_last(), answers.drop_last());
        if answers.last() {
            rest
        } else {
            rest.push(names.last())
        }
    }
}

/// Which of [`REQUIRED_BINARIES`] are absent, given a presence predicate, which
/// is asked once for each of them.
pub fn missing_binaries<F: Fn(&str) -> bool>(present: F) -> (r: Vec<&'static str>)
    requires
        forall|name: &str| #[trigger] call_requires(present, (name,)),
    ensures
        exists|answers: Seq<bool>|
            answers.len() == 3 && (forall|i: int|
                #![trigger answers[i]]
                0 <= i < 3 ==> call_ensures(present, (REQUIRED_BINARIES@[i],), answers[i]))
                && #[trigger] denied(REQUIRED_BINARIES@, answers) == r@,
{
    let mut missing: Vec<&'static str> = Vec::new();
    let mut i: usize = 0;
    let ghost mut answers: Seq<bool> = Seq::empty();
    while i < 3
        invariant
            i <= 3,
            answers.len() == i,
            forall|name: &str| #[trigger] call_requires(present, (name,)),
            forall|k: int|
                #![trigger answers[k]]
                0 <= k < i ==> call_ensures(present, (REQUIRED_BINARIES@[k],), answers[k]),
            denied(REQUIRED_BINARIES@.take(i as int), answers) == missing@,
        decreases 3 - i,
    {
        let name: &'static str = REQUIRED_BINARIES[i];
        let answer: bool = present(name);
        proof {
            let before = answers;
            answers = answers.push(answer);
            assert(answers.drop_last() =~= before);
            assert(REQUIRED_BINARIES@.take(i + 1).drop_last() =~= REQUIRED_BINARIES@.take(i as int));
            assert(REQUIRED_BINARIES@.take(i + 1).last() == name);
        }
        if !answer {
            missing.push(name);
        }
        i = i + 1;
    }
    proof {
        assert(REQUIRED_BINARIES@.take(3) =~= REQUIRED_BINARIES@);
        assert(denied(REQUIRED_BINARIES@, answers) == missing@);
    }
    missing
}

/// A missing binary is one the predicate denied, and every one it denied is
/// missing.
pub proof fn law_missing_is_exactly_what_is_denied(names: Seq<&'static str>, answers: Seq<bool>)
    requires
        names.len() == answers.len(),
    ensures
        (forall|i: int| 0 <= i < names.len() ==> #[trigger] answers[i]) <==> denied(
            names,
            answers,
        ).len() == 0,
        forall|i: int|
            0 <= i < names.len() && !(#[trigger] answers[i]) ==> denied(names, answers).contains(
                names[i],
            ),
        forall|k: int|
            #![trigger denied(names, answers)[k]]
            0 <= k < denied(names, answers).len() ==> exists|i: int|
                0 <= i < names.len() && !(#[trigger] answers[i]) && names[i] == denied(
                    names,
                    answers,
                )[k],
    decreases names.len(),
{
    if names.len() > 0 {
        let n = names.drop_last();
        let a = answers.drop_last();
        law_missing_is_exactly_what_is_denied(n, a);
        let rest = denied(n, a);
        let all = denied(names, answers);
        assert forall|i: int| 0 <= i < names.len() && !(#[trigger] answers[i]) implies all.contains(
            names[i],
        ) by {
            if i < n.len() {
                assert(!a[i]);
                assert(rest.contains(n[i]));
                let k = choose|k: int| 0 <= k < rest.len() && rest[k] == n[i];
                assert(all[k] == names[i]);
            } else {
                assert(all[all.len() - 1] == names[i]);
            }
        }
        assert forall|k: int|
            #![trigger denied(names, answers)[k]]
            0 <= k < denied(names, answers).len() implies exists|i: int|
            0 <= i < names.len() && !(#[trigger] answers[i]) && names[i] == denied(
                names,
                answers,
            )[k] by {
            if k < rest.len() {
                assert(all[k] == rest[k]);
                let i = choose|i: int| 0 <= i < n.len() && !(#[trigger] a[i]) && n[i] == rest[k];
                assert(!answers[i] && names[i] == all[k]);
            } else {
                let i = names.len() - 1;
                assert(!answers[i] && names[i] == all[k]);
            }
        }
        if all.len() == 0 {
            assert forall|i: int| 0 <= i < names.len() implies #[trigger] answers[i] by {
                if i < a.len() {
                    assert(a[i] == answers[i]);
                }
            }
        }
        if forall|i: int| 0 <= i < names.len() ==> #[trigger] answers[i] {
            assert forall|i: int| 0 <= i < n.len() implies #[trigger] a[i] by {
                assert(answers[i]);
            }
            assert(answers[answers.len() - 1]);
        }
    }
}

/// The texts of a list of names.
pub open spec fn name_texts(names: Seq<&'static str>) -> Seq<Seq<char>> {
    names.map_values(|n: &'static str| n@)
}

/// Texts with a comma and a space between them.
pub open spec fn listed_text(names: Seq<Seq<char>>) -> Seq<char>
    decreases names.len(),
{
    if names.len() == 0 {
        Seq::empty()
    } else if names.len() == 1 {
        names[0]
    } else {
        listed_text(names.drop_last()) + ", "@ + names.last()
    }
}

/// What a failed preflight says.
pub open spec fn preflight_message(names: Seq<Seq<char>>) -> Seq<char> {
    "missing WinRestyle binaries next to the installer: "@ + listed_text(names)
}

/// Confirm that nothing required is missing.
pub fn preflight(missing: &Vec<&'static str>) -> (r: Result<(), String>)
    ensures
        r is Ok <==> missing@.len() == 0,
        r matches Err(e) ==> e@ == preflight_message(name_texts(missing@)),
{
    if missing.len() == 0 {
        return Ok(());
    }
    let mut list = String::new();
    let mut i: usize = 0;
    let ghost texts = name_texts(missing@);
    proof {
        assert(texts.take(0) =~= Seq::<Seq<char>>::empty());
    }
    while i < missing.len()
        invariant
            i <= missing@.len(),
            texts == name_texts(missing@),
            list@ == listed_text(texts.take(i as int)),
        decreases missing@.len() - i,
    {
        proof {
            assert(texts.take(i + 1).drop_last() =~= texts.take(i as int));
            assert(texts.take(i + 1).last() == missing@[i as int]@);
            if i == 0 {
                assert(Seq::<char>::empty() + missing@[0]@ =~= missing@[0]@);
            }
        }
        if i > 0 {
            list.append(", ");
        }
        list.append(missing[i]);
        i = i + 1;
    }
    proof {
        assert(texts.take(texts.len() as int) =~= texts);
    }
    Err(text::joined("missing WinRestyle binaries next to the installer: ", list.as_str()))
}

/// What precedes the hotkey in the recovery instructions.
pub const RECOVERY_HEAD: &'static str =
    "If the new desktop misbehaves, you can always get Windows back:\n\n• Press ";

/// What follows the hotkey in the recovery instructions.
pub const RECOVERY_TAIL: &'static str =
    " at any time — it restores explorer immediately.\n• Or run `wr-installer deactivate` (the manager's Undo does the same).\n• Or run `wr-installer restore` from another machine/account, then log in again.\n\nYour original shell setting was backed up and is restored byte-for-byte.";

/// The text of the recovery instructions.
pub open spec fn recovery_text() -> Seq<char> {
    RECOVERY_HEAD@ + crate::EMERGENCY_HOTKEY_LABEL@ + RECOVERY_TAIL@
}

/// The recovery instructions shown after every apply. One source of truth, so
/// that the UI, the CLI and the docs quote the same hotkey and command.
pub fn recovery_instructions() -> (r: String)
    ensures
        r@ == recovery_text(),
{
    let head = text::joined(RECOVERY_HEAD, crate::EMERGENCY_HOTKEY_LABEL);
    text::joined(head.as_str(), RECOVERY_TAIL)
}

/// The human-readable result of a successful apply, for the manager to show.
#[derive(Debug, Clone, PartialEq, Eq)]
pub struct ApplyOutcome {
    /// A one-line headline.
    pub headline: String,
    /// The full recovery instructions ([`recovery_instructions`]).
    pub instructions: String,
}

impl ApplyOutcome {
    /// The outcome of an apply.
    pub fn applied() -> (r: Self)
        ensures
            r.headline@
                == "Restyle applied — activate it now, or it starts at your next sign-in."@,
            r.instructions@ == recovery_text(),
    {
        ApplyOutcome {
            headline: "Restyle applied — activate it now, or it starts at your next sign-in.".to_owned(),
            instructions: recovery_instructions(),
        }
    }

    /// The outcome of a live activation.
    pub fn activated() -> (r: Self)
        ensures
            r.headline@ == "WinRestyle is now your desktop."@,
            r.instructions@ == recovery_text(),
    {
        ApplyOutcome {
            headline: "WinRestyle is now your desktop.".to_owned(),
            instructions: recovery_instructions(),
        }
    }
}

/// The recovery instructions name the emergency hotkey and both commands that
/// bring Windows back.
pub proof fn law_recovery_text_names_the_way_back()
    ensures
        text::occurs_in(recovery_text(), crate::EMERGENCY_HOTKEY_LABEL@),
        text::occurs_in(recovery_text(), "wr-installer deactivate"@),
        text::occurs_in(recovery_text(), "wr-installer restore"@),
{
    let head = RECOVERY_HEAD@;
    let label = crate::EMERGENCY_HOTKEY_LABEL@;
    let tail = RECOVERY_TAIL@;
    let all = recovery_text();
    assert(all.subrange(head.len() as int, (head.len() + label.len()) as int) =~= label);
    assert(text::occurs_at(all, label, head.len() as int));
    let before = (head.len() + label.len()) as int;
    reveal_strlit(" at any time — it restores explorer immediately.\n• Or run `wr-installer deactivate` (the manager's Undo does the same).\n• Or run `wr-installer restore` from another machine/account, then log in again.\n\nYour original shell setting was backed up and is restored byte-for-byte.");
    reveal_strlit("wr-installer deactivate");
    reveal_strlit("wr-installer restore");
    assert(all.subrange(before + 59, before + 59 + 23) =~= "wr-installer deactivate"@);
    assert(text::occurs_at(all, "wr-installer deactivate"@, before + 59));
    assert(all.subrange(before + 130, before + 130 + 20) =~= "wr-installer restore"@);
    assert(text::occurs_at(all, "wr-installer restore"@, before + 130));
}

/// How long the trial run is given to come up and exit, in milliseconds. A
/// healthy one returns in well under a second; this is only a backstop.
pub const TRIAL_TIMEOUT_MS: u64 = 10_000;

/// How long to wait between two looks at the trial run, in milliseconds.
pub const TRIAL_POLL_MS: u64 = 50;

/// What is seen of the trial run.
#[derive(Debug, Clone, Copy, PartialEq, Eq, Structural)]
pub enum TrialStatus {
    Running,
    Succeeded,
    Failed,
}

/// What to do about the trial run.
#[derive(Debug, Clone, Copy, PartialEq, Eq, Structural)]
pub enum TrialStep {
    /// It passed.
    Pass,
    /// It failed.
    Fail,
    /// It took too long: end it, and fail.
    EndAndFail,
    /// Look again after [`TRIAL_POLL_MS`].
    Wait,
}

/// Judge a look at the trial run, `elapsed_ms` after it started: it passes only
/// by a clean exit, and only an exit saves it from the deadline.
pub fn trial_run(status: TrialStatus, elapsed_ms: u64) -> (r: TrialStep)
    ensures
        r == match status {
            TrialStatus::Succeeded => TrialStep::Pass,
            TrialStatus::Failed => TrialStep::Fail,
            TrialStatus::Running => if elapsed_ms >= TRIAL_TIMEOUT_MS {
                TrialStep::EndAndFail
            } else {
                TrialStep::Wait
            },
        },
{
    match status {
        TrialStatus::Succeeded => TrialStep::Pass,
        TrialStatus::Failed => TrialStep::Fail,
        TrialStatus::Running => if elapsed_ms >= TRIAL_TIMEOUT_MS {
            TrialStep::EndAndFail
        } else {
            TrialStep::Wait
        },
    }
}

/// Where a safe-apply is: what to do next, or how it ended.
#[derive(Debug, Clone, Copy, PartialEq, Eq, Structural)]
pub enum ApplyStep {
    /// Check that the binaries are there.
    Preflight,
    /// Persist the config.
    WriteConfig,
    /// Run the shell's self-test.
    TrialRun,
    /// Back up the shell value and set it to the watchdog.
    Swap,
    /// Everything succeeded.
    Applied,
    /// A step failed.
    Failed,
}

/// The step after `step`, given whether it succeeded.
pub open spec fn apply_next(step: ApplyStep, ok: bool) -> ApplyStep {
    match step {
        ApplyStep::Applied => ApplyStep::Applied,
        ApplyStep::Failed => ApplyStep::Failed,
        _ => if !ok {
            ApplyStep::Failed
        } else {
            match step {
                ApplyStep::Preflight => ApplyStep::WriteConfig,
                ApplyStep::WriteConfig => ApplyStep::TrialRun,
                ApplyStep::TrialRun => ApplyStep::Swap,
                _ => ApplyStep::Applied,
            }
        },
    }
}

/// Where a safe-apply is after steps with these results.
pub open spec fn apply_walk(results: Seq<bool>) -> ApplyStep
    decreases results.len(),
{
    if results.len() == 0 {
        ApplyStep::Preflight
    } else {
        apply_next(apply_walk(results.drop_last()), results.last())
    }
}

/// The next step of a safe-apply, given whether the last one succeeded. It
/// starts at [`ApplyStep::Preflight`].
pub fn apply_restyle(step: ApplyStep, ok: bool) -> (r: ApplyStep)
    ensures
        r == apply_next(step, ok),
{
    match step {
        ApplyStep::Applied => ApplyStep::Applied,
        ApplyStep::Failed => ApplyStep::Failed,
        ApplyStep::Preflight => if ok {
            ApplyStep::WriteConfig
        } else {
            ApplyStep::Failed
        },
        ApplyStep::WriteConfig => if ok {
            ApplyStep::TrialRun
        } else {
            ApplyStep::Failed
        },
        ApplyStep::TrialRun => if ok {
            ApplyStep::Swap
        } else {
            ApplyStep::Failed
        },
        ApplyStep::Swap => if ok {
            ApplyStep::Applied
        } else {
            ApplyStep::Failed
        },
    }
}

/// What stands in the way of finding a program beside an executable that is in
/// no directory.
pub const NO_DIRECTORY: &'static str = "installer has no parent directory";

/// The shell that [`ApplyStep::Swap`] registers and that
/// [`ActivateStep::LaunchWatchdog`] starts: the watchdog beside the program,
/// which owns the emergency hotkey and supervises the shell, and never the shell
/// itself. An error where `exe` names no file.
pub fn swapped_shell(exe: &str) -> (r: Result<String, &'static str>)
    ensures
        r is Ok <==> paths::parent_of(exe@) is Some,
        r matches Ok(shell) ==> shell@ == paths::beside(exe@, crate::WATCHDOG_EXE@),
        r matches Err(e) ==> e@ == NO_DIRECTORY@,
{
    match paths::sibling(exe, crate::WATCHDOG_EXE) {
        Some(shell) => Ok(shell),
        None => Err(NO_DIRECTORY),
    }
}

/// A completed swap leaves the watchdog beside the program registered as the
/// shell, whatever was registered before, and a program of no other name.
pub proof fn law_a_swap_registers_the_watchdog(exe: Seq<char>, reg: RegistryModel)
    requires
        reg.marker == BackupMarker::Absent,
        paths::file_name_of(exe).len() > 0,
        paths::begins_alike(exe, crate::WATCHDOG_EXE@),
    ensures
        ({
            let new_shell = paths::beside(exe, crate::WATCHDOG_EXE@);
            let after = shell::written_all(reg, shell::swap_writes(reg.shell, new_shell));
            &&& after.shell == Some(new_shell)
            &&& paths::file_name_of(new_shell) == crate::WATCHDOG_EXE@
            &&& paths::file_name_of(new_shell) != crate::SHELL_EXE@
        }),
{
    let new_shell = paths::beside(exe, crate::WATCHDOG_EXE@);
    shell::law_swap_takes_effect(reg, new_shell);
    crate::installer::cli::law_apply_registers_the_watchdog(exe);
    reveal_strlit("wr-watchdog.exe");
    reveal_strlit("wr-shell.exe");
    assert(crate::WATCHDOG_EXE@.len() != crate::SHELL_EXE@.len());
}

impl ApplyStep {
    /// What a failure of this step is reported as.
    pub open spec fn failure_text(self) -> Seq<char> {
        match self {
            ApplyStep::WriteConfig => "writing config before swap"@,
            ApplyStep::TrialRun => "trial run failed; registry NOT changed"@,
            ApplyStep::Swap => "backing up and setting the shell"@,
            _ => ""@,
        }
    }

    /// What a failure of this step is reported as (nothing where the failure
    /// speaks for itself).
    pub fn failure(self) -> (r: &'static str)
        ensures
            r@ == self.failure_text(),
    {
        match self {
            ApplyStep::WriteConfig => "writing config before swap",
            ApplyStep::TrialRun => "trial run failed; registry NOT changed",
            ApplyStep::Swap => "backing up and setting the shell",
            _ => "",
        }
    }
}

/// The registry is touched as the fourth step and never before: the step is
/// reached exactly when the binaries were there, the config was written and the
/// trial run passed.
pub proof fn law_registry_is_touched_last(results: Seq<bool>)
    ensures
        apply_walk(results) == ApplyStep::Swap <==> results.len() == 3 && results[0] && results[1]
            && results[2],
{
    lemma_apply_walk(results);
}

/// Once a step failed, no later step is taken.
pub proof fn law_failed_apply_stays_failed(results: Seq<bool>, n: int)
    requires
        0 <= n <= results.len(),
        apply_walk(results.take(n)) == ApplyStep::Failed,
    ensures
        apply_walk(results) == ApplyStep::Failed,
    decreases results.len() - n,
{
    if n < results.len() {
        assert(results.take(n + 1).drop_last() =~= results.take(n));
        law_failed_apply_stays_failed(results, n + 1);
    } else {
        assert(results.take(n) =~= results);
    }
}

proof fn lemma_apply_walk(results: Seq<bool>)
    ensures
        apply_walk(results) == ApplyStep::Preflight <==> results.len() == 0,
        apply_walk(results) == ApplyStep::WriteConfig <==> results.len() == 1 && results[0],
        apply_walk(results) == ApplyStep::TrialRun <==> results.len() == 2 && results[0]
            && results[1],
        apply_walk(results) == ApplyStep::Swap <==> results.len() == 3 && results[0] && results[1]
            && results[2],
    decreases results.len(),
{
    if results.len() > 0 {
        let init = results.drop_last();
        lemma_apply_walk(init);
        assert(results.last() == results[results.len() - 1]);
        if init.len() > 0 {
            assert(init[0] == results[0]);
        }
        if init.len() > 1 {
            assert(init[1] == results[1]);
        }
        if init.len() > 2 {
            assert(init[2] == results[2]);
        }
    }
}

/// The binaries a sweep ends, in order.
pub const SWEPT_BINARIES: [&'static str; 3] = [
    crate::TASKBAR_EXE,
    crate::SHELL_EXE,
    crate::WATCHDOG_EXE,
];

/// How many rounds a sweep goes at most.
pub const SWEEP_ROUNDS: u32 = 8;

/// How long a sweep waits after a round that was not clean, in milliseconds.
pub const SWEEP_PAUSE_MS: u64 = 300;

/// What to do after one round of a sweep.
#[derive(Debug, Clone, Copy, PartialEq, Eq, Structural)]
pub enum SweepStep {
    /// Nothing is left.
    Clean,
    /// Wait [`SWEEP_PAUSE_MS`], then go another round.
    Again,
    /// Wait [`SWEEP_PAUSE_MS`], then give up: some processes are still alive.
    GiveUp,
}

/// Judge round `round` (from 0) of a sweep that ended `killed` processes, given
/// whether any of the swept binaries still runs. One pass is not enough: the
/// watchdog and the shell resurrect each other, so a survivor can respawn its
/// peer between two kills. A sweep is done when a full pass finds nothing.
pub fn sweep_wr_processes(round: u32, killed: usize, any_left: bool) -> (r: SweepStep)
    ensures
        r == if killed == 0 && !any_left {
            SweepStep::Clean
        } else if round + 1 < SWEEP_ROUNDS {
            SweepStep::Again
        } else {
            SweepStep::GiveUp
        },
{
    if killed == 0 && !any_left {
        SweepStep::Clean
    } else if round < SWEEP_ROUNDS - 1 {
        SweepStep::Again
    } else {
        SweepStep::GiveUp
    }
}

/// How long live activation waits for the swapped-in desktop to settle (and for
/// a resurrected stock desktop to reveal itself), in milliseconds.
pub const ACTIVATE_SETTLE_MS: u64 = 2_500;

/// The desktop that live activation ends.
pub const DESKTOP_EXE: &'static str = "explorer.exe";

/// What a live activation that backed itself out says.
pub const BACKED_OUT: &'static str =
    "Windows relaunched explorer, so live activation backed itself out. The restyle is still applied and will activate at your next sign-in.";

/// Where a live activation is: what to do next, or how it ended.
#[derive(Debug, Clone, Copy, PartialEq, Eq, Structural)]
pub enum ActivateStep {
    /// Check that the binaries are there.
    Preflight,
    /// Sweep our own processes.
    Sweep,
    /// End the outgoing desktop and the tree it spawned.
    EndDesktop,
    /// Launch the watchdog.
    LaunchWatchdog,
    /// Wait [`ACTIVATE_SETTLE_MS`].
    Settle,
    /// See whether no other desktop shell is on screen.
    CheckDesktop,
    /// Sweep our own processes again.
    BackOut,
    /// The restyle is this session's desktop.
    Activated,
    /// It is not; the restyle activates at the next logon.
    Failed,
}

/// The step after `step`, given whether it went well. At
/// [`ActivateStep::CheckDesktop`] it went well where no other desktop shell is
/// on screen. Sweeping, ending the desktop and waiting are best-effort.
pub open spec fn activate_next(step: ActivateStep, ok: bool) -> ActivateStep {
    match step {
        ActivateStep::Preflight => if ok {
            ActivateStep::Sweep
        } else {
            ActivateStep::Failed
        },
        ActivateStep::Sweep => ActivateStep::EndDesktop,
        ActivateStep::EndDesktop => ActivateStep::LaunchWatchdog,
        ActivateStep::LaunchWatchdog => if ok {
            ActivateStep::Settle
        } else {
            ActivateStep::Failed
        },
        ActivateStep::Settle => ActivateStep::CheckDesktop,
        ActivateStep::CheckDesktop => if ok {
            ActivateStep::Activated
        } else {
            ActivateStep::BackOut
        },
        ActivateStep::BackOut => ActivateStep::Failed,
        ActivateStep::Activated => ActivateStep::Activated,
        ActivateStep::Failed => ActivateStep::Failed,
    }
}

/// Where a live activation is after steps with these results.
pub open spec fn activate_walk(results: Seq<bool>) -> ActivateStep
    decreases results.len(),
{
    if results.len() == 0 {
        ActivateStep::Preflight
    } else {
        activate_next(activate_walk(results.drop_last()), results.last())
    }
}

/// The next step of a live activation, given whether the last one went well. It
/// starts at [`ActivateStep::Preflight`].
pub fn activate_now(step: ActivateStep, ok: bool) -> (r: ActivateStep)
    ensures
        r == activate_next(step, ok),
{
    match step {
        ActivateStep::Preflight => if ok {
            ActivateStep::Sweep
        } else {
            ActivateStep::Failed
        },
        ActivateStep::Sweep => ActivateStep::EndDesktop,
        ActivateStep::EndDesktop => ActivateStep::LaunchWatchdog,
        ActivateStep::LaunchWatchdog => if ok {
            ActivateStep::Settle
        } else {
            ActivateStep::Failed
        },
        ActivateStep::Settle => ActivateStep::CheckDesktop,
        ActivateStep::CheckDesktop => if ok {
            ActivateStep::Activated
        } else {
            ActivateStep::BackOut
        },
        ActivateStep::BackOut => ActivateStep::Failed,
        ActivateStep::Activated => ActivateStep::Activated,
        ActivateStep::Failed => ActivateStep::Failed,
    }
}

/// The desktop is ended only after the binaries were found to be there; an
/// activation succeeds only where the watchdog was launched and no other
/// desktop came back; and one that finds another desktop sweeps our processes
/// before it fails.
pub proof fn law_activation_succeeds_or_backs_out(results: Seq<bool>)
    ensures
        activate_walk(results) == ActivateStep::EndDesktop ==> results[0],
        activate_walk(results) == ActivateStep::Activated ==> results.len() >= 6 && results[0]
            && results[3] && results[5],
        activate_walk(results) == ActivateStep::BackOut <==> results.len() == 6 && results[0]
            && results[3] && !results[5],
{
    lemma_activate_walk(results);
}

proof fn lemma_activate_walk(results: Seq<bool>)
    ensures
        activate_walk(results) == ActivateStep::Preflight <==> results.len() == 0,
        activate_walk(results) == ActivateStep::Sweep <==> results.len() == 1 && results[0],
        activate_walk(results) == ActivateStep::EndDesktop <==> results.len() == 2 && results[0],
        activate_walk(results) == ActivateStep::LaunchWatchdog <==> results.len() == 3
            && results[0],
        activate_walk(results) == ActivateStep::Settle <==> results.len() == 4 && results[0]
            && results[3],
        activate_walk(results) == ActivateStep::CheckDesktop <==> results.len() == 5 && results[0]
            && results[3],
        activate_walk(results) == ActivateStep::BackOut <==> results.len() == 6 && results[0]
            && results[3] && !results[5],
        activate_walk(results) == ActivateStep::Activated <==> results.len() >= 6 && results[0]
            && results[3] && results[5],
    decreases results.len(),
{
    if results.len() > 0 {
        let init = results.drop_last();
        lemma_activate_walk(init);
        assert(results.last() == results[results.len() - 1]);
        if init.len() > 0 {
            assert(init[0] == results[0]);
        }
        if init.len() > 3 {
            assert(init[3] == results[3]);
        }
        if init.len() > 5 {
            assert(init[5] == results[5]);
        }
    }
}

/// Where a teardown is: what to do next, or how it ended.
#[derive(Debug, Clone, Copy, PartialEq, Eq, Structural)]
pub enum UninstallStep {
    /// Restore the shell registry.
    Restore,
    /// Sweep our own processes.
    Sweep,
    /// See whether a desktop shell is on screen.
    CheckDesktop,
    /// Launch the stock desktop.
    LaunchDesktop,
    /// Windows is back.
    Done,
    /// The registry could not be restored.
    Failed,
}

/// The step after `step`, given whether it went well. At
/// [`UninstallStep::CheckDesktop`] the result is whether a desktop shell is on
/// screen already. Sweeping and launching are best-effort.
pub open spec fn uninstall_next(step: UninstallStep, ok: bool) -> UninstallStep {
    match step {
        UninstallStep::Restore => if ok {
            UninstallStep::Sweep
        } else {
            UninstallStep::Failed
        },
        UninstallStep::Sweep => UninstallStep::CheckDesktop,
        UninstallStep::CheckDesktop => if ok {
            UninstallStep::Done
        } else {
            UninstallStep::LaunchDesktop
        },
        UninstallStep::LaunchDesktop => UninstallStep::Done,
        UninstallStep::Done => UninstallStep::Done,
        UninstallStep::Failed => UninstallStep::Failed,
    }
}

/// Where a teardown is after steps with these results.
pub open spec fn uninstall_walk(results: Seq<bool>) -> UninstallStep
    decreases results.len(),
{
    if results.len() == 0 {
        UninstallStep::Restore
    } else {
        uninstall_next(uninstall_walk(results.drop_last()), results.last())
    }
}

/// The next step of a teardown, given whether the last one went well. It starts
/// at [`UninstallStep::Restore`]. Shared by the manager's Undo and the command
/// line, so that the two can never diverge.
pub fn uninstall(step: UninstallStep, ok: bool) -> (r: UninstallStep)
    ensures
        r == uninstall_next(step, ok),
{
    match step {
        UninstallStep::Restore => if ok {
            UninstallStep::Sweep
        } else {
            UninstallStep::Failed
        },
        UninstallStep::Sweep => UninstallStep::CheckDesktop,
        UninstallStep::CheckDesktop => if ok {
            UninstallStep::Done
        } else {
            UninstallStep::LaunchDesktop
        },
        UninstallStep::LaunchDesktop => UninstallStep::Done,
        UninstallStep::Done => UninstallStep::Done,
        UninstallStep::Failed => UninstallStep::Failed,
    }
}

/// A teardown launches the stock desktop exactly where the registry was
/// restored and no desktop shell was on screen after our own processes were
/// swept, and then once.
pub proof fn law_desktop_is_launched_only_where_there_is_none(results: Seq<bool>)
    ensures
        uninstall_walk(results) == UninstallStep::LaunchDesktop <==> results.len() == 3
            && results[0] && !results[2],
{
    lemma_uninstall_walk(results);
}

proof fn lemma_uninstall_walk(results: Seq<bool>)
    ensures
        uninstall_walk(results) == UninstallStep::Restore <==> results.len() == 0,
        uninstall_walk(results) == UninstallStep::Sweep <==> results.len() == 1 && results[0],
        uninstall_walk(results) == UninstallStep::CheckDesktop <==> results.len() == 2
            && results[0],
        uninstall_walk(results) == UninstallStep::LaunchDesktop <==> results.len() == 3
            && results[0] && !results[2],
    decreases results.len(),
{
    if results.len() > 0 {
        let init = results.drop_last();
        lemma_uninstall_walk(init);
        assert(results.last() == results[results.len() - 1]);
        if init.len() > 0 {
            assert(init[0] == results[0]);
        }
        if init.len() > 2 {
            assert(init[2] == results[2]);
        }
    }
}

/// What a preflight misses: the three programs of a restyle, each where its
/// answer is no, in order.
pub proof fn law_every_missing_binary_is_named(
    names: Seq<&'static str>,
    name: &'static str,
    answers: Seq<bool>,
    answer: bool,
)
    requires
        names.len() == answers.len(),
    ensures
        denied(Seq::empty(), Seq::empty()).len() == 0,
        denied(names.push(name), answers.push(answer)) == if answer {
            denied(names, answers)
        } else {
            denied(names, answers).push(name)
        },
        REQUIRED_BINARIES@.len() == 3,
        REQUIRED_BINARIES@[0]@ == "wr-watchdog.exe"@,
        REQUIRED_BINARIES@[1]@ == "wr-shell.exe"@,
        REQUIRED_BINARIES@[2]@ == "wr-taskbar.exe"@,
{
    assert(names.push(name).drop_last() =~= names);
    assert(answers.push(answer).drop_last() =~= answers);
}

/// What a failed preflight says: the missing names, with a comma between two.
pub proof fn law_missing_names_are_listed(names: Seq<Seq<char>>, name: Seq<char>)
    ensures
        preflight_message(seq![name]) == "missing WinRestyle binaries next to the installer: "@
            + name,
        names.len() > 0 ==> preflight_message(names.push(name)) == preflight_message(names)
            + ", "@ + name,
{
    let more = names.push(name);
    assert(more.drop_last() =~= names);
    assert(more.last() == name);
    if names.len() > 0 {
        assert(preflight_message(more) =~= preflight_message(names) + ", "@ + name);
    }
}

/// A restyle is applied after its four steps, and failed after a step that
/// failed: preflight, config, trial run and swap, in that order.
pub proof fn law_an_apply_takes_four_steps(results: Seq<bool>)
    ensures
        apply_walk(results) == ApplyStep::Preflight <==> results.len() == 0,
        apply_walk(results) == ApplyStep::WriteConfig <==> results.len() == 1 && results[0],
        apply_walk(results) == ApplyStep::TrialRun <==> results.len() == 2 && results[0]
            && results[1],
        apply_walk(results) == ApplyStep::Swap <==> results.len() == 3 && results[0] && results[1]
            && results[2],
        apply_walk(results) == ApplyStep::Applied <==> results.len() >= 4 && results[0]
            && results[1] && results[2] && results[3],
    decreases results.len(),
{
    if results.len() > 0 {
        let init = results.drop_last();
        law_an_apply_takes_four_steps(init);
        assert(results.last() == results[results.len() - 1]);
        assert forall|i: int| 0 <= i < init.len() implies init[i] == results[i] by {}
        if init.len() > 0 {
            assert(init[0] == results[0]);
        }
        if init.len() > 1 {
            assert(init[1] == results[1]);
        }
        if init.len() > 2 {
            assert(init[2] == results[2]);
        }
        if init.len() > 3 {
            assert(init[3] == results[3]);
        }
    }
}

/// The steps of a live activation, in order: only a failed preflight or launch
/// and a desktop that came back keep it from its end.
pub proof fn law_an_activation_takes_its_steps(results: Seq<bool>)
    ensures
        activate_walk(results) == ActivateStep::Preflight <==> results.len() == 0,
        activate_walk(results) == ActivateStep::Sweep <==> results.len() == 1 && results[0],
        activate_walk(results) == ActivateStep::EndDesktop <==> results.len() == 2 && results[0],
        activate_walk(results) == ActivateStep::LaunchWatchdog <==> results.len() == 3
            && results[0],
        activate_walk(results) == ActivateStep::Settle <==> results.len() == 4 && results[0]
            && results[3],
        activate_walk(results) == ActivateStep::CheckDesktop <==> results.len() == 5 && results[0]
            && results[3],
        activate_walk(results) == ActivateStep::Activated <==> results.len() >= 6 && results[0]
            && results[3] && results[5],
        ACTIVATE_SETTLE_MS == 2_500,
        DESKTOP_EXE@ == "explorer.exe"@,
{
    lemma_activate_walk(results);
}

/// The steps of a teardown, in order: the registry first, then our processes,
/// then the desktop, which is launched only where there is none.
pub proof fn law_a_teardown_takes_its_steps(results: Seq<bool>)
    ensures
        uninstall_walk(results) == UninstallStep::Restore <==> results.len() == 0,
        uninstall_walk(results) == UninstallStep::Sweep <==> results.len() == 1 && results[0],
        uninstall_walk(results) == UninstallStep::CheckDesktop <==> results.len() == 2
            && results[0],
        uninstall_walk(results) == UninstallStep::LaunchDesktop <==> results.len() == 3
            && results[0] && !results[2],
        uninstall_walk(results) == UninstallStep::Done <==> results.len() >= 3 && results[0] && (
        results[2] || results.len() >= 4),
        uninstall_walk(results) == UninstallStep::Failed <==> results.len() >= 1 && !results[0],
    decreases results.len(),
{
    if results.len() > 0 {
        let init = results.drop_last();
        law_a_teardown_takes_its_steps(init);
        assert(results.last() == results[results.len() - 1]);
        if init.len() > 0 {
            assert(init[0] == results[0]);
        }
        if init.len() > 2 {
            assert(init[2] == results[2]);
        }
    }
}

/// The times and counts of a trial run and a sweep, what is swept and in which
/// order, and what a failed step is reported as.
pub proof fn law_trials_and_sweeps_have_their_bounds()
    ensures
        TRIAL_TIMEOUT_MS == 10_000,
        TRIAL_POLL_MS == 50,
        SWEEP_ROUNDS == 8,
        SWEEP_PAUSE_MS == 300,
        SWEPT_BINARIES@.len() == 3,
        SWEPT_BINARIES@[0]@ == "wr-taskbar.exe"@,
        SWEPT_BINARIES@[1]@ == "wr-shell.exe"@,
        SWEPT_BINARIES@[2]@ == "wr-watchdog.exe"@,
        ApplyStep::Preflight.failure_text() == ""@,
        ApplyStep::WriteConfig.failure_text() == "writing config before swap"@,
        ApplyStep::TrialRun.failure_text() == "trial run failed; registry NOT changed"@,
        ApplyStep::Swap.failure_text() == "backing up and setting the shell"@,
        NO_DIRECTORY@ == "installer has no parent directory"@,
        BACKED_OUT@
            == "Windows relaunched explorer, so live activation backed itself out. The restyle is still applied and will activate at your next sign-in."@,
{
}

/// What the recovery instructions say around the hotkey.
pub proof fn law_the_instructions_have_their_words()
    ensures
        RECOVERY_HEAD@
            == "If the new desktop misbehaves, you can always get Windows back:\n\n• Press "@,
        RECOVERY_TAIL@
            == " at any time — it restores explorer immediately.\n• Or run `wr-installer deactivate` (the manager's Undo does the same).\n• Or run `wr-installer restore` from another machine/account, then log in again.\n\nYour original shell setting was backed up and is restored byte-for-byte."@,
{
}

} // verus!
