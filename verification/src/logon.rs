//! Running autostart at logon: whether this shell start runs it at all, which
//! entries it launches, in which steps, and the marker that keeps a relaunched
//! shell from running everything again.
use vstd::prelude::*;

use crate::autostart::{Action, Entry};
use crate::config::Autostart;
use crate::number;
use crate::paths;
use crate::text;

verus! {

/// What is known of the session marker.
#[derive(Debug, Clone, Copy, PartialEq, Eq, Structural)]
pub enum Marker {
    /// This logon session already ran autostart.
    Ran,
    /// It did not.
    NotRan,
    /// The marker could not be read.
    Unavailable,
}

/// Whether autostart runs, and why not.
#[derive(Debug, Clone, Copy, PartialEq, Eq, Structural)]
pub enum RunDecision {
    /// Launch the entries.
    Run,
    /// The config switches autostart off.
    SwitchedOff,
    /// Another desktop shell is on screen: this is no swapped session.
    OtherDesktop,
    /// The entries already ran in this logon session.
    AlreadyRan,
}

/// Whether autostart runs. A test filter bypasses the two guards of a real
/// session; a marker that cannot be read does not hold anything back (a missed
/// marker means a rare double run after a crash, a false "already ran" would
/// silently degrade every session).
pub fn run_decision(
    config: &Autostart,
    filtered: bool,
    other_desktop: bool,
    marker: Marker,
) -> (r: RunDecision)
    ensures
        r == run_decision_of(config.enabled, filtered, other_desktop, marker),
{
    if !config.enabled {
        return RunDecision::SwitchedOff;
    }
    if !filtered {
        if other_desktop {
            return RunDecision::OtherDesktop;
        }
        if marker == Marker::Ran {
            return RunDecision::AlreadyRan;
        }
    }
    RunDecision::Run
}

/// Whether autostart runs, and why not.
pub open spec fn run_decision_of(
    enabled: bool,
    filtered: bool,
    other_desktop: bool,
    marker: Marker,
) -> RunDecision {
    if !enabled {
        RunDecision::SwitchedOff
    } else if filtered {
        RunDecision::Run
    } else if other_desktop {
        RunDecision::OtherDesktop
    } else if marker == Marker::Ran {
        RunDecision::AlreadyRan
    } else {
        RunDecision::Run
    }
}

/// Without a test filter nothing runs while another desktop is on screen or
/// once the session has run it; with or without one, nothing runs while the
/// config switches it off; and an unreadable marker never stops a run.
pub proof fn law_autostart_guards(enabled: bool, filtered: bool, other: bool, marker: Marker)
    ensures
        !enabled ==> run_decision_of(enabled, filtered, other, marker) != RunDecision::Run,
        !filtered && other ==> run_decision_of(enabled, filtered, other, marker)
            != RunDecision::Run,
        !filtered && marker == Marker::Ran ==> run_decision_of(enabled, filtered, other, marker)
            != RunDecision::Run,
        enabled && !other && marker == Marker::Unavailable ==> run_decision_of(
            enabled,
            filtered,
            other,
            marker,
        ) == RunDecision::Run,
{
}

/// What becomes of one entry.
#[derive(Debug, Clone, Copy, PartialEq, Eq, Structural)]
pub enum EntryDecision {
    /// Launch it.
    Launch,
    /// The test filter does not let it through.
    FilteredOut,
    /// The config switches it off.
    Disabled,
}

/// What becomes of the entry with that id.
pub open spec fn entry_decision_of(
    enabled: bool,
    disabled: Seq<Seq<char>>,
    filter: Option<Seq<char>>,
    id: Seq<char>,
) -> EntryDecision {
    if filter is Some && !text::occurs_in(text::lowered(id), text::lowered(filter->0)) {
        EntryDecision::FilteredOut
    } else if !enabled || text::listed_ignoring_case(disabled, id) {
        EntryDecision::Disabled
    } else {
        EntryDecision::Launch
    }
}

/// The text of an optional filter.
pub open spec fn filter_text(filter: Option<&str>) -> Option<Seq<char>> {
    match filter {
        Some(f) => Some(f@),
        None => None,
    }
}

/// What becomes of the entry with that id: filtered out where a test filter
/// does not occur in it (in any case), skipped where the config does not allow
/// it, launched otherwise.
pub fn entry_decision(config: &Autostart, filter: Option<&str>, id: &str) -> (r: EntryDecision)
    ensures
        r == entry_decision_of(config.enabled, config@.disabled, filter_text(filter), id@),
{
    if let Some(f) = filter {
        let lower_id = text::ascii_lowercase(id);
        let lower_filter = text::ascii_lowercase(f);
        if !text::contains_part(lower_id.as_str(), lower_filter.as_str()) {
            return EntryDecision::FilteredOut;
        }
    }
    if !config.allows(id) {
        return EntryDecision::Disabled;
    }
    EntryDecision::Launch
}

/// How many of the first `n` entries are decided that way.
pub open spec fn decided(
    entries: Seq<Entry>,
    enabled: bool,
    disabled: Seq<Seq<char>>,
    filter: Option<Seq<char>>,
    d: EntryDecision,
) -> nat
    decreases entries.len(),
{
    if entries.len() == 0 {
        0
    } else {
        decided(entries.drop_last(), enabled, disabled, filter, d) + if entry_decision_of(
            enabled,
            disabled,
            filter,
            entries.last().id@,
        ) == d {
            1nat
        } else {
            0nat
        }
    }
}

/// The positions of the entries that are launched, in order.
pub open spec fn launch_positions(
    entries: Seq<Entry>,
    enabled: bool,
    disabled: Seq<Seq<char>>,
    filter: Option<Seq<char>>,
) -> Seq<usize>
    decreases entries.len(),
{
    if entries.len() == 0 {
        Seq::empty()
    } else {
        let rest = launch_positions(entries.drop_last(), enabled, disabled, filter);
        if entry_decision_of(enabled, disabled, filter, entries.last().id@)
            == EntryDecision::Launch {
            rest.push((entries.len() - 1) as usize)
        } else {
            rest
        }
    }
}

/// What a run is going to do: the entries to launch, by position and in order,
/// and how many the config switches off.
#[derive(Debug, Clone, PartialEq, Eq)]
pub struct LaunchPlan {
    pub launch: Vec<usize>,
    pub disabled: usize,
}

/// Decide every entry of a run.
pub fn plan(config: &Autostart, filter: Option<&str>, entries: &Vec<Entry>) -> (r: LaunchPlan)
    ensures
        r.launch@ == launch_positions(
            entries@,
            config.enabled,
            config@.disabled,
            filter_text(filter),
        ),
        r.disabled == decided(
            entries@,
            config.enabled,
            config@.disabled,
            filter_text(filter),
            EntryDecision::Disabled,
        ),
{
    let mut launch: Vec<usize> = Vec::new();
    let mut disabled: usize = 0;
    let mut i: usize = 0;
    let ghost f = filter_text(filter);
    while i < entries.len()
        invariant
            i <= entries@.len(),
            f == filter_text(filter),
            disabled <= i,
            launch@ == launch_positions(
                entries@.take(i as int),
                config.enabled,
                config@.disabled,
                f,
            ),
            disabled == decided(
                entries@.take(i as int),
                config.enabled,
                config@.disabled,
                f,
                EntryDecision::Disabled,
            ),
        decreases entries@.len() - i,
    {
        proof {
            assert(entries@.take(i + 1).drop_last() =~= entries@.take(i as int));
            assert(entries@.take(i + 1).last() == entries@[i as int]);
        }
        match entry_decision(config, filter, entries[i].id.as_str()) {
            EntryDecision::Launch => {
                launch.push(i);
            },
            EntryDecision::Disabled => {
                disabled = disabled + 1;
            },
            EntryDecision::FilteredOut => {},
        }
        i = i + 1;
    }
    proof {
        assert(entries@.take(entries@.len() as int) =~= entries@);
    }
    LaunchPlan { launch, disabled }
}

/// An entry that the config switches off, in whatever case it is written, is
/// never launched.
pub proof fn law_disabled_entries_never_launch(
    entries: Seq<Entry>,
    enabled: bool,
    disabled: Seq<Seq<char>>,
    filter: Option<Seq<char>>,
)
    requires
        entries.len() <= usize::MAX,
    ensures
        forall|k: int|
            #![trigger launch_positions(entries, enabled, disabled, filter)[k]]
            0 <= k < launch_positions(entries, enabled, disabled, filter).len() ==> {
                let i = launch_positions(entries, enabled, disabled, filter)[k];
                &&& i < entries.len()
                &&& enabled
                &&& !text::listed_ignoring_case(disabled, entries[i as int].id@)
            },
    decreases entries.len(),
{
    if entries.len() > 0 {
        law_disabled_entries_never_launch(entries.drop_last(), enabled, disabled, filter);
        let rest = launch_positions(entries.drop_last(), enabled, disabled, filter);
        let all = launch_positions(entries, enabled, disabled, filter);
        assert forall|k: int| #![trigger all[k]] 0 <= k < all.len() implies {
            &&& all[k] < entries.len()
            &&& enabled
            &&& !text::listed_ignoring_case(disabled, entries[all[k] as int].id@)
        } by {
            if k < rest.len() {
                assert(all[k] == rest[k]);
                assert(entries.drop_last()[rest[k] as int] == entries[rest[k] as int]);
            }
        }
    }
}

/// One step of launching an entry. A step that fails ends the launch, except a
/// deletion that is not required.
#[derive(Debug, PartialEq, Eq)]
pub enum Step {
    /// Open the per-user run-once key for writing.
    OpenRunOnce,
    /// Delete the per-user run-once value of that name.
    DeleteRunOnce { name: String, required: bool },
    /// Start that command line.
    Spawn(String),
    /// Have the system open that path.
    Open(String),
    /// Start the clipboard helper.
    SpawnRdpclip,
}

/// Whether these are the steps of the action. A run-once command never runs
/// where its key cannot be written. The value is deleted before its command
/// runs, and the command does not run where the deletion fails: a command that
/// takes the session down must not run again at the next logon. Values that ask
/// for it are deleted afterwards, best-effort.
pub open spec fn are_steps_of(steps: Seq<Step>, action: Action) -> bool {
    match action {
        Action::CommandLine(c) => steps.len() == 1 && (steps[0] matches Step::Spawn(s) && s@ == c@),
        Action::RunOnce { name, command, delete_after } => {
            &&& steps.len() == 3
            &&& steps[0] is OpenRunOnce
            &&& if delete_after {
                &&& steps[1] matches Step::Spawn(s) && s@ == command@
                &&& steps[2] matches Step::DeleteRunOnce { name: n, required } && n@ == name@
                    && !required
            } else {
                &&& steps[1] matches Step::DeleteRunOnce { name: n, required } && n@ == name@
                    && required
                &&& steps[2] matches Step::Spawn(s) && s@ == command@
            }
        },
        Action::OpenPath(p) => steps.len() == 1 && (steps[0] matches Step::Open(s) && s@ == p@),
        Action::Rdpclip => steps.len() == 1 && steps[0] is SpawnRdpclip,
    }
}

impl Entry {
    /// The steps that launch this entry, in order.
    pub fn launch(&self) -> (steps: Vec<Step>)
        ensures
            are_steps_of(steps@, self.action),
    {
        let mut steps: Vec<Step> = Vec::new();
        match &self.action {
            Action::CommandLine(cmd) => {
                steps.push(Step::Spawn(cmd.clone()));
            },
            Action::RunOnce { name, command, delete_after } => {
                steps.push(Step::OpenRunOnce);
                if *delete_after {
                    steps.push(Step::Spawn(command.clone()));
                    steps.push(Step::DeleteRunOnce { name: name.clone(), required: false });
                } else {
                    steps.push(Step::DeleteRunOnce { name: name.clone(), required: true });
                    steps.push(Step::Spawn(command.clone()));
                }
            },
            Action::OpenPath(path) => {
                steps.push(Step::Open(path.clone()));
            },
            Action::Rdpclip => {
                steps.push(Step::SpawnRdpclip);
            },
        }
        steps
    }
}

/// Where the session marker lives.
pub open spec fn marker_location(local_appdata: Seq<char>) -> Seq<char> {
    paths::below(paths::below(local_appdata, "WinRestyle"@), "autostart-session"@)
}

/// The path of the session marker below the local application data directory.
pub fn marker_path(local_appdata: &str) -> (r: String)
    ensures
        r@ == marker_location(local_appdata@),
{
    let dir = paths::join(local_appdata, "WinRestyle");
    paths::join(dir.as_str(), "autostart-session")
}

/// The id of a logon session, from the two halves the system gives it in.
pub open spec fn session_of(high: i32, low: u32) -> int {
    (if high < 0 {
        high + 0x1_0000_0000
    } else {
        high as int
    }) * 0x1_0000_0000 + low
}

/// The id of a logon session, from the two halves the system gives it in.
pub fn logon_session(high: i32, low: u32) -> (r: u64)
    ensures
        r == session_of(high, low),
{
    let upper: u64 = if high < 0 {
        (high as i64 + 0x1_0000_0000) as u64
    } else {
        high as u64
    };
    upper * 0x1_0000_0000 + low as u64
}

/// What the marker of a session holds: its id in hexadecimal.
pub fn record_ran(session: u64) -> (r: String)
    ensures
        r@ == number::hex_text(session as nat),
{
    let mut out = String::new();
    number::push_hex(&mut out, session);
    proof {
        let t = number::hex_text(session as nat);
        assert(Seq::<char>::empty() + t =~= t);
    }
    out
}

/// Whether a marker with that content says that this session already ran
/// autostart. `recorded` is `None` where there is no marker.
pub fn already_ran(recorded: Option<&str>, session: u64) -> (r: bool)
    ensures
        r == match recorded {
            Some(s) => text::trimmed(s@) == number::hex_text(session as nat),
            None => false,
        },
{
    match recorded {
        Some(s) => {
            let trimmed = text::trim(s);
            let current = record_ran(session);
            text::same_text(trimmed.as_str(), current.as_str())
        },
        None => false,
    }
}

/// Hexadecimal digits have no white space to trim.
proof fn lemma_hex_trims_to_itself(n: nat)
    ensures
        text::trimmed(number::hex_text(n)) == number::hex_text(n),
{
    let s = number::hex_text(n);
    number::lemma_hex_text(n);
    assert(number::is_hex(s[0]));
    assert(number::is_hex(s[s.len() - 1]));
    assert(!text::is_white(s[0]));
    assert(!text::is_white(s.last()));
}

/// The marker a session leaves stops that session and no other.
pub proof fn law_marker_stops_its_own_session_only(session: nat, other: nat)
    ensures
        text::trimmed(number::hex_text(session)) == number::hex_text(other) <==> session == other,
{
    lemma_hex_trims_to_itself(session);
    number::lemma_hex_text(session);
    number::lemma_hex_text(other);
}

/// The steps that launch a run-once entry open its key first, so that nothing
/// runs where the key cannot be written. They delete the value before they spawn
/// its command, and must succeed at that, unless the value's name starts with
/// `!`: then the command comes first and the deletion is best-effort.
pub proof fn law_run_once_values_go_before_their_command(
    l: crate::autostart::Listing,
    entries: Seq<Entry>,
    k: int,
    steps: Seq<Step>,
)
    requires
        crate::autostart::launches(entries) == crate::autostart::launched_entries(l),
        0 <= k < entries.len(),
        are_steps_of(steps, entries[k].action),
    ensures
        entries[k].action matches Action::RunOnce { name, command, delete_after } ==> {
            &&& name@.len() > 0
            &&& steps.len() == 3
            &&& steps[0] is OpenRunOnce
            &&& name@[0] != '!' ==> {
                &&& steps[1] matches Step::DeleteRunOnce { name: n, required } && n@ == name@
                    && required
                &&& steps[2] matches Step::Spawn(s) && s@ == command@
            }
            &&& name@[0] == '!' ==> {
                &&& steps[1] matches Step::Spawn(s) && s@ == command@
                &&& steps[2] matches Step::DeleteRunOnce { name: n, required } && n@ == name@
                    && !required
            }
        },
{
    crate::autostart::law_only_marked_values_outlive_their_command(l);
    assert(crate::autostart::launches(entries)[k] == entries[k]@);
}

/// An entry that is no run-once value takes one step: its command line is
/// spawned, its path opened, or the clipboard helper started.
pub proof fn law_other_entries_take_one_step(steps: Seq<Step>, action: Action)
    requires
        are_steps_of(steps, action),
        !(action is RunOnce),
    ensures
        steps.len() == 1,
        match action {
            Action::CommandLine(c) => steps[0] matches Step::Spawn(s) && s@ == c@,
            Action::OpenPath(p) => steps[0] matches Step::Open(s) && s@ == p@,
            Action::Rdpclip => steps[0] is SpawnRdpclip,
            Action::RunOnce { .. } => false,
        },
{
}

/// Autostart runs exactly where the config has it on and, but for a test filter,
/// no other desktop is on screen and the session has not run it yet; where it
/// does not, the first of these that fails is named.
pub proof fn law_autostart_runs_once_in_its_own_session(
    enabled: bool,
    filtered: bool,
    other: bool,
    marker: Marker,
)
    ensures
        run_decision_of(enabled, filtered, other, marker) == RunDecision::Run <==> enabled && (
        filtered || (!other && marker != Marker::Ran)),
        run_decision_of(enabled, filtered, other, marker) == RunDecision::SwitchedOff <==> !enabled,
        run_decision_of(enabled, filtered, other, marker) == RunDecision::OtherDesktop <==> enabled
            && !filtered && other,
        run_decision_of(enabled, filtered, other, marker) == RunDecision::AlreadyRan <==> enabled
            && !filtered && !other && marker == Marker::Ran,
{
}

/// An entry is launched exactly where a test filter, if there is one, stands
/// anywhere in its id, and the config has autostart on and does not list it; case
/// does not matter to either. What the filter leaves out is not counted as
/// switched off.
pub proof fn law_entries_launch_unless_filtered_or_switched_off(
    enabled: bool,
    disabled: Seq<Seq<char>>,
    filter: Option<Seq<char>>,
    id: Seq<char>,
)
    ensures
        ({
            let let_through = filter is None || exists|a: Seq<char>, b: Seq<char>|
                text::lowered(id) == #[trigger] (a + text::lowered(filter->0) + b);
            let allowed = enabled && !exists|i: int|
                0 <= i < disabled.len() && text::same_ignoring_case(#[trigger] disabled[i], id);
            let d = entry_decision_of(enabled, disabled, filter, id);
            &&& d == EntryDecision::Launch <==> let_through && allowed
            &&& d == EntryDecision::FilteredOut <==> !let_through
            &&& d == EntryDecision::Disabled <==> let_through && !allowed
        }),
{
    if filter is Some {
        text::law_parts_stand_anywhere(text::lowered(id), text::lowered(filter->0));
    }
}

/// A run launches exactly the entries that are decided to launch, in their order,
/// and counts exactly those that are switched off.
pub proof fn law_a_run_launches_what_is_decided(
    entries: Seq<Entry>,
    enabled: bool,
    disabled: Seq<Seq<char>>,
    filter: Option<Seq<char>>,
    next: Entry,
)
    requires
        entries.len() < usize::MAX,
    ensures
        launch_positions(Seq::empty(), enabled, disabled, filter).len() == 0,
        launch_positions(entries.push(next), enabled, disabled, filter) == launch_positions(
            entries,
            enabled,
            disabled,
            filter,
        ) + if entry_decision_of(enabled, disabled, filter, next.id@) == EntryDecision::Launch {
            seq![entries.len() as usize]
        } else {
            Seq::empty()
        },
        decided(Seq::empty(), enabled, disabled, filter, EntryDecision::Disabled) == 0,
        decided(entries.push(next), enabled, disabled, filter, EntryDecision::Disabled) == decided(
            entries,
            enabled,
            disabled,
            filter,
            EntryDecision::Disabled,
        ) + if entry_decision_of(enabled, disabled, filter, next.id@) == EntryDecision::Disabled {
            1nat
        } else {
            0
        },
{
    let all = entries.push(next);
    assert(all.drop_last() =~= entries);
    assert(all.last() == next);
    assert(launch_positions(all, enabled, disabled, filter) =~= launch_positions(
        entries,
        enabled,
        disabled,
        filter,
    ) + if entry_decision_of(enabled, disabled, filter, next.id@) == EntryDecision::Launch {
        seq![entries.len() as usize]
    } else {
        Seq::empty()
    });
}

/// A session's id has its two halves in its upper and its lower 32 bits, so that
/// no two sessions share one.
pub proof fn law_sessions_are_told_apart(high: i32, low: u32)
    ensures
        0 <= session_of(high, low) < 0x1_0000_0000 * 0x1_0000_0000,
        session_of(high, low) % 0x1_0000_0000 == low,
        session_of(high, low) / 0x1_0000_0000 == high as int % 0x1_0000_0000,
{
    let upper = if high < 0 {
        high + 0x1_0000_0000
    } else {
        high as int
    };
    vstd::arithmetic::div_mod::lemma_fundamental_div_mod_converse(
        session_of(high, low),
        0x1_0000_0000,
        upper,
        low as int,
    );
    if high < 0 {
        vstd::arithmetic::div_mod::lemma_fundamental_div_mod_converse(
            high as int,
            0x1_0000_0000,
            -1,
            upper,
        );
    }
}

/// The marker stands in the project's folder below the local application data.
pub proof fn law_the_marker_has_its_place(local_appdata: Seq<char>)
    requires
        local_appdata.len() > 2,
        local_appdata.last() != '\\',
        local_appdata.last() != '/',
    ensures
        marker_location(local_appdata) == local_appdata + "\\WinRestyle\\autostart-session"@,
{
    reveal_strlit("WinRestyle");
    reveal_strlit("autostart-session");
    reveal_strlit("\\WinRestyle\\autostart-session");
    let dir = local_appdata + seq!['\\'] + "WinRestyle"@;
    assert(paths::below(local_appdata, "WinRestyle"@) == dir);
    assert(dir.last() == 'e');
    assert(marker_location(local_appdata) =~= local_appdata + "\\WinRestyle\\autostart-session"@);
}

} // verus!
