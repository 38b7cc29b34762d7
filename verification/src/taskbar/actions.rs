//! Built-in start-menu actions that sit above the scanned apps: a calm,
//! non-emergency restore, the settings window, and dev-only helpers.
use vstd::prelude::*;

use crate::text;

verus! {

/// What a menu action does when chosen.
#[derive(Debug, Clone, Copy, PartialEq, Eq, Structural)]
pub enum ActionKind {
    /// Restore the standard Windows desktop now: restore the registry, sweep
    /// our own processes, bring the stock desktop back.
    Restore,
    /// Open the manager window.
    Settings,
    /// Open a terminal in the source tree (dev).
    Terminal,
    /// Launch the test suite in a new terminal (dev).
    RunTests,
}

/// One action row.
#[derive(Debug, Clone, Copy, PartialEq, Eq)]
pub struct MenuAction {
    pub label: &'static str,
    pub kind: ActionKind,
    /// Shown only in a dev build. A shipped restyler must never surface build
    /// or test commands to end users.
    pub dev_only: bool,
}

/// All actions, in on-screen order: admin actions first, dev helpers after.
pub open spec fn all_actions() -> Seq<(Seq<char>, ActionKind, bool)> {
    seq![
        ("Restore Windows desktop"@, ActionKind::Restore, false),
        ("WinRestyle settings"@, ActionKind::Settings, false),
        ("Open terminal here"@, ActionKind::Terminal, true),
        ("Run VM test suite"@, ActionKind::RunTests, true),
    ]
}

/// The actions as values.
pub open spec fn action_values(actions: Seq<MenuAction>) -> Seq<(Seq<char>, ActionKind, bool)> {
    actions.map_values(|a: MenuAction| (a.label@, a.kind, a.dev_only))
}

/// The actions a build shows: all of them in a dev build, the first two
/// otherwise.
pub open spec fn shown_actions(dev: bool) -> Seq<(Seq<char>, ActionKind, bool)> {
    if dev {
        all_actions()
    } else {
        all_actions().take(2)
    }
}

/// The actions to show, filtered by whether this is a dev build. Order is the
/// on-screen order: admin actions first, dev helpers after.
pub fn actions(dev: bool) -> (r: Vec<MenuAction>)
    ensures
        action_values(r@) == shown_actions(dev),
{
    let mut out: Vec<MenuAction> = Vec::new();
    out.push(
        MenuAction {
            label: "Restore Windows desktop",
            kind: ActionKind::Restore,
            dev_only: false,
        },
    );
    out.push(
        MenuAction { label: "WinRestyle settings", kind: ActionKind::Settings, dev_only: false },
    );
    if dev {
        out.push(
            MenuAction { label: "Open terminal here", kind: ActionKind::Terminal, dev_only: true },
        );
        out.push(
            MenuAction { label: "Run VM test suite", kind: ActionKind::RunTests, dev_only: true },
        );
    }
    proof {
        assert(action_values(out@) =~= shown_actions(dev));
    }
    out
}

/// Outside dev builds no dev-only action is shown, and in dev builds every
/// action is; the admin actions lead either way.
pub proof fn law_dev_actions_stay_in_dev_builds(dev: bool)
    ensures
        forall|i: int|
            0 <= i < shown_actions(false).len() ==> !(#[trigger] shown_actions(false)[i]).2,
        forall|i: int|
            0 <= i < all_actions().len() && !(#[trigger] all_actions()[i]).2
                ==> shown_actions(false).contains(all_actions()[i]),
        shown_actions(true) == all_actions(),
        shown_actions(dev)[0].1 == ActionKind::Restore,
        shown_actions(dev)[1].1 == ActionKind::Settings,
{
    assert(shown_actions(false)[0] == all_actions()[0]);
    assert(shown_actions(false)[1] == all_actions()[1]);
}

/// The labels of a list of actions.
pub open spec fn labels(actions: Seq<MenuAction>) -> Seq<Seq<char>> {
    actions.map_values(|a: MenuAction| a.label@)
}

/// Indices into `actions` whose labels match `filter` (case-insensitive
/// substring; empty matches all): the same contract as for apps, so that the
/// menu filters actions and apps identically.
pub fn filter_indices(actions: &[MenuAction], filter: &str) -> (r: Vec<usize>)
    ensures
        r@ == text::matching(labels(actions@), filter@),
        filter@.len() == 0 ==> r@ == text::every_position(actions@.len()),
{
    let needle = filter.to_lowercase();
    let mut out: Vec<usize> = Vec::new();
    let mut i: usize = 0;
    let ghost all = labels(actions@);
    while i < actions.len()
        invariant
            i <= actions@.len(),
            all == labels(actions@),
            needle@ == text::lowercase(filter@),
            filter@.len() == 0 ==> needle@.len() == 0,
            out@ == text::matching(all.take(i as int), filter@),
        decreases actions@.len() - i,
    {
        proof {
            assert(all.take(i + 1).drop_last() =~= all.take(i as int));
            assert(all.take(i + 1).last() == actions@[i as int].label@);
        }
        if text::matches_lowered(actions[i].label, needle.as_str()) {
            out.push(i);
        }
        i = i + 1;
    }
    proof {
        assert(all.take(all.len() as int) =~= all);
        if filter@.len() == 0 {
            text::lemma_everything_matches(all, filter@);
        }
    }
    out
}

/// Typing finds every action whose label the filter occurs in, anywhere and in
/// any case, and no other action.
pub proof fn law_typing_finds_actions_by_any_part_of_their_label(
    actions: Seq<MenuAction>,
    filter: Seq<char>,
)
    requires
        actions.len() <= usize::MAX,
    ensures
        forall|p: usize, a: Seq<char>, b: Seq<char>|
            p < actions.len() && text::lowercase(actions[p as int].label@) == #[trigger] (a
                + text::lowercase(filter) + b) ==> #[trigger] text::matching(
                labels(actions),
                filter,
            ).contains(p),
        forall|p: usize| #[trigger]
            text::matching(labels(actions), filter).contains(p) ==> p < actions.len() && exists|
                a: Seq<char>,
                b: Seq<char>,
            |
                text::lowercase(actions[p as int].label@) == #[trigger] (a + text::lowercase(filter)
                    + b),
        forall|i: int, j: int|
            0 <= i < j < text::matching(labels(actions), filter).len() ==> #[trigger]
            text::matching(labels(actions), filter)[i] < #[trigger] text::matching(
                labels(actions),
                filter,
            )[j],
{
    let all = labels(actions);
    text::law_a_filter_finds_every_occurrence(all, filter);
    assert forall|p: usize, a: Seq<char>, b: Seq<char>|
        p < actions.len() && text::lowercase(actions[p as int].label@) == #[trigger] (a
            + text::lowercase(filter) + b) implies #[trigger] text::matching(all, filter).contains(
        p,
    ) by {
        assert(all[p as int] == actions[p as int].label@);
    }
    assert forall|p: usize| #[trigger]
        text::matching(all, filter).contains(p) implies p < actions.len() && exists|
        a: Seq<char>,
        b: Seq<char>,
    |
        text::lowercase(actions[p as int].label@) == #[trigger] (a + text::lowercase(filter) + b) by {
        assert(all[p as int] == actions[p as int].label@);
    }
}

/// Outside a dev build the menu offers the way back to Windows and the settings;
/// a dev build offers the terminal and the tests below them. Each is called what
/// it does.
pub proof fn law_actions_are_called_what_they_do(dev: bool)
    ensures
        shown_actions(dev).len() == if dev {
            4nat
        } else {
            2
        },
        shown_actions(dev)[0] == ("Restore Windows desktop"@, ActionKind::Restore, false),
        shown_actions(dev)[1] == ("WinRestyle settings"@, ActionKind::Settings, false),
        dev ==> shown_actions(dev)[2] == ("Open terminal here"@, ActionKind::Terminal, true),
        dev ==> shown_actions(dev)[3] == ("Run VM test suite"@, ActionKind::RunTests, true),
{
}

} // verus!
