//! Read, back up, replace, and restore the per-user Windows shell.
//!
//! Windows takes the shell of a session from a per-user registry value, and
//! from a machine-wide one (the stock desktop) where that is absent. Only the
//! per-user value is ever touched here, so "restore" means putting it back
//! exactly as it was found: the original string, or *absent* if there was none.
//!
//! The functions decide over a reading of the registry ([`ShellRegistry`]) and
//! answer with the writes to perform, in order ([`RegWrite`]). The order is
//! what keeps the original recoverable if the machine stops between any two
//! writes.
use vstd::prelude::*;

use crate::paths;
use crate::text;

verus! {

/// Outcome of restoring the shell.
#[derive(Debug, Clone, Copy, PartialEq, Eq, Structural)]
pub enum RestoreOutcome {
    /// The original per-user `Shell` value was written back.
    RestoredOriginal,
    /// There was no original per-user value, so the override was removed
    /// (Windows now falls back to the machine-wide default).
    RemovedOverride,
    /// Nothing to do: no override was present.
    NothingToRestore,
}

impl RestoreOutcome {
    /// The name an outcome is shown under.
    pub open spec fn name_text(self) -> Seq<char> {
        match self {
            RestoreOutcome::RestoredOriginal => "RestoredOriginal"@,
            RestoreOutcome::RemovedOverride => "RemovedOverride"@,
            RestoreOutcome::NothingToRestore => "NothingToRestore"@,
        }
    }

    /// The name an outcome is shown under.
    pub fn name(self) -> (r: &'static str)
        ensures
            r@ == self.name_text(),
    {
        match self {
            RestoreOutcome::RestoredOriginal => "RestoredOriginal",
            RestoreOutcome::RemovedOverride => "RemovedOverride",
            RestoreOutcome::NothingToRestore => "NothingToRestore",
        }
    }
}

/// The marker of a backup: whether an original value existed when it was made.
#[derive(Debug, Clone, Copy, PartialEq, Eq, Structural)]
pub enum BackupMarker {
    /// There is no marker: no backup.
    Absent,
    /// There is a marker, and this is its number.
    Number(u32),
    /// There is a marker, but it is no number.
    Unreadable,
}

/// A reading of what the shell swap touches: the per-user shell value and the
/// backup.
#[derive(Debug, PartialEq, Eq)]
pub struct ShellRegistry {
    /// The per-user `Shell` value; `None` if it is not set.
    pub shell: Option<String>,
    /// The marker of the backup.
    pub marker: BackupMarker,
    /// The backed-up `Shell` value; `None` if there is none to read.
    pub original: Option<String>,
}

/// A reading as a value.
#[verifier::ext_equal]
pub ghost struct RegistryModel {
    pub shell: Option<Seq<char>>,
    pub marker: BackupMarker,
    pub original: Option<Seq<char>>,
}

impl View for ShellRegistry {
    type V = RegistryModel;

    open spec fn view(&self) -> RegistryModel {
        RegistryModel {
            shell: crate::config::optional_text(self.shell),
            marker: self.marker,
            original: crate::config::optional_text(self.original),
        }
    }
}

/// One write to the registry.
#[derive(Debug, PartialEq, Eq)]
pub enum RegWrite {
    /// Set the backed-up value.
    SetOriginal(String),
    /// Set the marker of the backup.
    SetMarker(u32),
    /// Set the per-user `Shell` value.
    SetShell(String),
    /// Remove the per-user `Shell` value (it may be absent already).
    DeleteShell,
    /// Remove the whole backup.
    ClearBackup,
}

/// A write as a value.
pub ghost enum WriteModel {
    SetOriginal(Seq<char>),
    SetMarker(u32),
    SetShell(Seq<char>),
    DeleteShell,
    ClearBackup,
}

impl View for RegWrite {
    type V = WriteModel;

    open spec fn view(&self) -> WriteModel {
        match self {
            RegWrite::SetOriginal(s) => WriteModel::SetOriginal(s@),
            RegWrite::SetMarker(n) => WriteModel::SetMarker(*n),
            RegWrite::SetShell(s) => WriteModel::SetShell(s@),
            RegWrite::DeleteShell => WriteModel::DeleteShell,
            RegWrite::ClearBackup => WriteModel::ClearBackup,
        }
    }
}

/// The values of a list of writes.
pub open spec fn writes(list: Seq<RegWrite>) -> Seq<WriteModel> {
    list.map_values(|w: RegWrite| w@)
}

/// The registry after one write.
pub open spec fn written(reg: RegistryModel, w: WriteModel) -> RegistryModel {
    match w {
        WriteModel::SetOriginal(s) => RegistryModel { original: Some(s), ..reg },
        WriteModel::SetMarker(n) => RegistryModel { marker: BackupMarker::Number(n), ..reg },
        WriteModel::SetShell(s) => RegistryModel { shell: Some(s), ..reg },
        WriteModel::DeleteShell => RegistryModel { shell: None, ..reg },
        WriteModel::ClearBackup => RegistryModel {
            marker: BackupMarker::Absent,
            original: None,
            ..reg
        },
    }
}

/// The registry after the first `n` of a list of writes.
pub open spec fn written_until(reg: RegistryModel, list: Seq<WriteModel>, n: int) -> RegistryModel
    decreases n,
{
    if n <= 0 {
        reg
    } else {
        written(written_until(reg, list, n - 1), list[n - 1])
    }
}

/// The registry after all of a list of writes.
pub open spec fn written_all(reg: RegistryModel, list: Seq<WriteModel>) -> RegistryModel {
    written_until(reg, list, list.len() as int)
}

/// Why a shell operation is refused.
#[derive(Debug, Clone, Copy, PartialEq, Eq, Structural)]
pub enum ShellError {
    /// A backup already exists; restore before applying again.
    BackupExists,
    /// The backup says there was an original value, but it cannot be read.
    OriginalUnreadable,
}

impl ShellError {
    /// The message of a refusal.
    pub open spec fn message_text(self) -> Seq<char> {
        match self {
            ShellError::BackupExists =>
                "a WinRestyle shell backup already exists; restore before applying again"@,
            ShellError::OriginalUnreadable => "reading backed-up Shell value"@,
        }
    }

    /// The message of a refusal.
    pub fn message(self) -> (r: &'static str)
        ensures
            r@ == self.message_text(),
    {
        match self {
            ShellError::BackupExists =>
                "a WinRestyle shell backup already exists; restore before applying again",
            ShellError::OriginalUnreadable => "reading backed-up Shell value",
        }
    }
}

/// The writes of a swap: the backup first, so that a failure mid-way never
/// loses the original, and its marker after the value it speaks of.
pub open spec fn swap_writes(shell: Option<Seq<char>>, new_shell: Seq<char>) -> Seq<WriteModel> {
    match shell {
        Some(s) => seq![
            WriteModel::SetOriginal(s),
            WriteModel::SetMarker(1),
            WriteModel::SetShell(new_shell),
        ],
        None => seq![
            WriteModel::SetOriginal(Seq::empty()),
            WriteModel::SetMarker(0),
            WriteModel::SetShell(new_shell),
        ],
    }
}

/// The writes of a restore.
pub open spec fn restore_writes(reg: RegistryModel) -> Seq<WriteModel> {
    match reg.marker {
        BackupMarker::Absent => Seq::empty(),
        BackupMarker::Number(1) => seq![
            WriteModel::SetShell(reg.original->0),
            WriteModel::ClearBackup,
        ],
        _ => seq![WriteModel::DeleteShell, WriteModel::ClearBackup],
    }
}

/// The outcome of a restore.
pub open spec fn restore_outcome(reg: RegistryModel) -> RestoreOutcome {
    match reg.marker {
        BackupMarker::Absent => RestoreOutcome::NothingToRestore,
        BackupMarker::Number(1) => RestoreOutcome::RestoredOriginal,
        _ => RestoreOutcome::RemovedOverride,
    }
}

/// Whether a restore can be made: where the backup says that there was an
/// original value, it can be read.
pub open spec fn can_restore(reg: RegistryModel) -> bool {
    reg.marker == BackupMarker::Number(1) ==> reg.original is Some
}

/// The registry after a restore.
pub open spec fn restored(reg: RegistryModel) -> RegistryModel {
    written_all(reg, restore_writes(reg))
}

/// The per-user `Shell` value, or `None` if not set (Windows then uses the
/// machine-wide default).
pub fn read_user_shell(reg: &ShellRegistry) -> (r: Option<String>)
    ensures
        crate::config::optional_text(r) == reg@.shell,
{
    match &reg.shell {
        Some(s) => Some(s.clone()),
        None => None,
    }
}

/// True if there is a saved backup (i.e. an override is or was applied).
pub fn has_backup(reg: &ShellRegistry) -> (r: bool)
    ensures
        r == (reg@.marker != BackupMarker::Absent),
{
    match reg.marker {
        BackupMarker::Absent => false,
        _ => true,
    }
}

/// Back up the current per-user `Shell` value (refusing to clobber an existing
/// backup) and set ours: the writes to make, in order.
pub fn backup_and_set_shell(reg: &ShellRegistry, new_shell: &str) -> (r: Result<
    Vec<RegWrite>,
    ShellError,
>)
    ensures
        r is Err <==> reg@.marker != BackupMarker::Absent,
        r matches Err(e) ==> e == ShellError::BackupExists,
        r matches Ok(list) ==> writes(list@) == swap_writes(reg@.shell, new_shell@),
{
    if has_backup(reg) {
        return Err(ShellError::BackupExists);
    }
    let mut list: Vec<RegWrite> = Vec::new();
    match read_user_shell(reg) {
        Some(value) => {
            list.push(RegWrite::SetOriginal(value));
            list.push(RegWrite::SetMarker(1));
        },
        None => {
            list.push(RegWrite::SetOriginal(String::new()));
            list.push(RegWrite::SetMarker(0));
        },
    }
    list.push(RegWrite::SetShell(new_shell.to_owned()));
    proof {
        assert(writes(list@) =~= swap_writes(reg@.shell, new_shell@));
    }
    Ok(list)
}

/// Restore the per-user shell to exactly what it was, and clear the backup: the
/// writes to make, in order, and what they come to. Safe to call when nothing
/// is applied.
pub fn restore_shell(reg: &ShellRegistry) -> (r: Result<
    (RestoreOutcome, Vec<RegWrite>),
    ShellError,
>)
    ensures
        r is Ok <==> can_restore(reg@),
        r matches Err(e) ==> e == ShellError::OriginalUnreadable,
        r matches Ok(plan) ==> plan.0 == restore_outcome(reg@) && writes(plan.1@)
            == restore_writes(reg@),
{
    let mut list: Vec<RegWrite> = Vec::new();
    match reg.marker {
        BackupMarker::Absent => {
            proof {
                assert(writes(list@) =~= restore_writes(reg@));
            }
            return Ok((RestoreOutcome::NothingToRestore, list));
        },
        BackupMarker::Number(n) => {
            if n == 1 {
                match &reg.original {
                    Some(s) => {
                        list.push(RegWrite::SetShell(s.clone()));
                        list.push(RegWrite::ClearBackup);
                        proof {
                            assert(writes(list@) =~= restore_writes(reg@));
                        }
                        return Ok((RestoreOutcome::RestoredOriginal, list));
                    },
                    None => {
                        return Err(ShellError::OriginalUnreadable);
                    },
                }
            }
        },
        BackupMarker::Unreadable => {},
    }
    // There was no per-user value originally: remove the override so that the
    // machine-wide default applies again.
    list.push(RegWrite::DeleteShell);
    list.push(RegWrite::ClearBackup);
    proof {
        assert(writes(list@) =~= restore_writes(reg@));
    }
    Ok((RestoreOutcome::RemovedOverride, list))
}

/// However far a swap gets before the machine stops, a restore from there can
/// be made, and puts the per-user shell back exactly as it was, with no backup
/// left.
pub proof fn law_swap_can_always_be_undone(reg: RegistryModel, new_shell: Seq<char>, n: int)
    requires
        reg.marker == BackupMarker::Absent,
        0 <= n <= 3,
    ensures
        ({
            let stopped = written_until(reg, swap_writes(reg.shell, new_shell), n);
            &&& can_restore(stopped)
            &&& restored(stopped).shell == reg.shell
            &&& restored(stopped).marker == BackupMarker::Absent
        }),
{
    let list = swap_writes(reg.shell, new_shell);
    reveal_with_fuel(written_until, 4);
    let stopped = written_until(reg, list, n);
    lemma_restored(stopped);
}

proof fn lemma_restored(reg: RegistryModel)
    ensures
        reg.marker == BackupMarker::Absent ==> restored(reg) == reg,
        reg.marker == BackupMarker::Number(1) ==> restored(reg) == (RegistryModel {
            shell: Some(reg.original->0),
            marker: BackupMarker::Absent,
            original: None,
        }),
        reg.marker != BackupMarker::Absent && reg.marker != BackupMarker::Number(1)
            ==> restored(reg) == (RegistryModel {
            shell: None,
            marker: BackupMarker::Absent,
            original: None,
        }),
{
    reveal_with_fuel(written_until, 3);
}

/// A completed swap points the shell at the new one and keeps the original.
pub proof fn law_swap_takes_effect(reg: RegistryModel, new_shell: Seq<char>)
    requires
        reg.marker == BackupMarker::Absent,
    ensures
        ({
            let after = written_all(reg, swap_writes(reg.shell, new_shell));
            &&& after.shell == Some(new_shell)
            &&& after.marker != BackupMarker::Absent
            &&& reg.shell is Some ==> after.original == reg.shell
        }),
{
    reveal_with_fuel(written_until, 4);
}

/// A restore that is interrupted after its first write can be made again from
/// there, to the same end.
pub proof fn law_interrupted_restore_resumes(reg: RegistryModel, n: int)
    requires
        can_restore(reg),
        0 <= n <= restore_writes(reg).len(),
    ensures
        ({
            let stopped = written_until(reg, restore_writes(reg), n);
            &&& can_restore(stopped)
            &&& restored(stopped).shell == restored(reg).shell
            &&& restored(stopped).marker == BackupMarker::Absent
        }),
{
    reveal_with_fuel(written_until, 3);
    let stopped = written_until(reg, restore_writes(reg), n);
    lemma_restored(stopped);
    lemma_restored(reg);
}

/// Restoring twice is restoring once: the second time there is nothing to do
/// and nothing changes.
pub proof fn law_restore_is_idempotent(reg: RegistryModel)
    requires
        can_restore(reg),
    ensures
        restore_outcome(restored(reg)) == RestoreOutcome::NothingToRestore,
        restored(restored(reg)) == restored(reg),
{
    lemma_restored(reg);
    lemma_restored(restored(reg));
}

/// Whether a process image is our own taskbar: the last component of its path
/// is our executable's name, in any case.
pub open spec fn is_our_taskbar(path: Seq<char>) -> bool {
    text::same_ignoring_case(paths::tail_of(path), crate::TASKBAR_EXE@)
}

/// Whether a full process image path names our own taskbar executable (the only
/// one of our programs that ever creates a tray window). Case-insensitive, on
/// the last path component only.
pub fn image_is_our_taskbar(path: &str) -> (r: bool)
    ensures
        r == is_our_taskbar(path@),
{
    let name = paths::tail(path);
    text::eq_ignore_case(name.as_str(), crate::TASKBAR_EXE)
}

/// Whether the owner of a tray window is a desktop shell: one whose image is
/// known and not our taskbar's.
pub open spec fn is_desktop_owner(owner: Option<Seq<char>>) -> bool {
    owner matches Some(image) && !is_our_taskbar(image)
}

/// Whether a desktop shell is on screen, given the process image of each tray
/// window's owner (`None` where it cannot be resolved).
///
/// A tray window owned by our taskbar is not a desktop shell; one owned by any
/// other identifiable process is; one whose owner cannot be resolved is not.
/// The failure directions are asymmetric: a dying tray host of ours can be
/// enumerable but unopenable, and counting it would leave the user with no
/// shell at all, while missing a real shell merely opens one stray window.
/// When in doubt, the stock desktop is launched.
pub fn desktop_shell_running(owners: &Vec<Option<String>>) -> (r: bool)
    ensures
        r <==> exists|i: int|
            0 <= i < owners@.len() && is_desktop_owner(
                crate::config::optional_text(#[trigger] owners@[i]),
            ),
{
    let mut i: usize = 0;
    while i < owners.len()
        invariant
            i <= owners@.len(),
            forall|j: int|
                0 <= j < i ==> !is_desktop_owner(
                    crate::config::optional_text(#[trigger] owners@[j]),
                ),
        decreases owners@.len() - i,
    {
        if let Some(image) = &owners[i] {
            if !image_is_our_taskbar(image.as_str()) {
                proof {
                    assert(is_desktop_owner(crate::config::optional_text(owners@[i as int])));
                }
                return true;
            }
        }
        i = i + 1;
    }
    false
}

/// What a write does to the registry: it sets what it names, and touches nothing
/// else; the shell is set or removed without the backup, and the backup without
/// the shell.
pub proof fn law_a_write_changes_what_it_names(reg: RegistryModel, s: Seq<char>, n: u32)
    ensures
        written(reg, WriteModel::SetOriginal(s)) == (RegistryModel {
            shell: reg.shell,
            marker: reg.marker,
            original: Some(s),
        }),
        written(reg, WriteModel::SetMarker(n)) == (RegistryModel {
            shell: reg.shell,
            marker: BackupMarker::Number(n),
            original: reg.original,
        }),
        written(reg, WriteModel::SetShell(s)) == (RegistryModel {
            shell: Some(s),
            marker: reg.marker,
            original: reg.original,
        }),
        written(reg, WriteModel::DeleteShell) == (RegistryModel {
            shell: None,
            marker: reg.marker,
            original: reg.original,
        }),
        written(reg, WriteModel::ClearBackup) == (RegistryModel {
            shell: reg.shell,
            marker: BackupMarker::Absent,
            original: None,
        }),
{
}

/// The shell is touched last in a swap: as long as it is not complete, the shell
/// is what it was; once it is, the backup holds the shell there was and a marker
/// of 1, or nothing and a marker of 0 where there was none.
pub proof fn law_a_swap_backs_up_before_it_sets(reg: RegistryModel, new_shell: Seq<char>, n: int)
    requires
        0 <= n < 3,
    ensures
        swap_writes(reg.shell, new_shell).len() == 3,
        written_until(reg, swap_writes(reg.shell, new_shell), n).shell == reg.shell,
        n < 2 ==> written_until(reg, swap_writes(reg.shell, new_shell), n).marker == reg.marker,
        written_all(reg, swap_writes(reg.shell, new_shell)) == (RegistryModel {
            shell: Some(new_shell),
            marker: BackupMarker::Number(
                if reg.shell is Some {
                    1
                } else {
                    0
                },
            ),
            original: Some(
                match reg.shell {
                    Some(s) => s,
                    None => Seq::empty(),
                },
            ),
        }),
{
    reveal_with_fuel(written_until, 4);
}

/// What a restore comes to: nothing without a backup, the original where the
/// backup holds one, and no per-user shell where it says that there was none or
/// says nothing that can be read. It fails only where the original is lost.
pub proof fn law_a_restore_follows_the_marker(reg: RegistryModel, n: u32)
    ensures
        reg.marker == BackupMarker::Absent ==> restore_outcome(reg)
            == RestoreOutcome::NothingToRestore && restored(reg) == reg,
        reg.marker == BackupMarker::Number(1) && reg.original is Some ==> restore_outcome(reg)
            == RestoreOutcome::RestoredOriginal && restored(reg).shell == reg.original,
        reg.marker == BackupMarker::Number(n) && n != 1 || reg.marker == BackupMarker::Unreadable
            ==> restore_outcome(reg) == RestoreOutcome::RemovedOverride && restored(reg).shell
            is None,
        reg.marker != BackupMarker::Absent ==> restored(reg).marker == BackupMarker::Absent
            && restored(reg).original is None,
        can_restore(reg) <==> !(reg.marker == BackupMarker::Number(1) && reg.original is None),
{
    lemma_restored(reg);
}

/// What outcomes and refusals are called.
pub proof fn law_outcomes_have_their_names()
    ensures
        RestoreOutcome::RestoredOriginal.name_text() == "RestoredOriginal"@,
        RestoreOutcome::RemovedOverride.name_text() == "RemovedOverride"@,
        RestoreOutcome::NothingToRestore.name_text() == "NothingToRestore"@,
        ShellError::BackupExists.message_text()
            == "a WinRestyle shell backup already exists; restore before applying again"@,
        ShellError::OriginalUnreadable.message_text() == "reading backed-up Shell value"@,
{
}

/// Our taskbar is told by the last component of its image alone, in any case and
/// after either separator: `wr-taskbar.exe` is ours in every directory, and no
/// other name is.
pub proof fn law_our_taskbar_is_told_by_its_name(dir: Seq<char>, name: Seq<char>)
    requires
        forall|i: int| 0 <= i < name.len() ==> #[trigger] name[i] != '\\' && name[i] != '/',
    ensures
        is_our_taskbar(dir + seq!['\\'] + name) <==> text::same_ignoring_case(
            name,
            "wr-taskbar.exe"@,
        ),
        is_our_taskbar(dir + seq!['/'] + name) <==> text::same_ignoring_case(
            name,
            "wr-taskbar.exe"@,
        ),
        is_our_taskbar(name) <==> text::same_ignoring_case(name, "wr-taskbar.exe"@),
        is_desktop_owner(Some(dir + seq!['\\'] + name)) <==> !text::same_ignoring_case(
            name,
            "wr-taskbar.exe"@,
        ),
        !is_desktop_owner(None),
{
    paths::law_the_tail_follows_the_last_separator(dir, name);
}

} // verus!
