//! Window buttons, seen from the windows: which top-level windows deserve one,
//! how a storm of window events becomes one refresh, and the small choices
//! behind icons, launches and the overflow menu.
use vstd::prelude::*;

use crate::paths;
use crate::taskbar::actions::ActionKind;
use crate::taskbar::tasks::TaskWindow;
use crate::text;

verus! {

/// Posted (coalesced) to the bar whenever the window population may have
/// changed (`WM_APP + 2`).
pub const WM_WINDOWS_CHANGED: u32 = 0x8002;

/// Extended window styles.
pub const WS_EX_TOOLWINDOW: u32 = 0x0000_0080;
pub const WS_EX_APPWINDOW: u32 = 0x0004_0000;

/// What is known of a top-level window.
#[derive(Debug, PartialEq, Eq)]
pub struct WindowFacts {
    pub hwnd: isize,
    pub visible: bool,
    pub ex_style: u32,
    /// Whether another window owns it.
    pub owned: bool,
    /// Hidden by the compositor (a suspended app, another virtual desktop).
    pub cloaked: bool,
    /// The class name, in UTF-16.
    pub class: Vec<u16>,
    /// The title, in UTF-16; empty where there is none.
    pub title: Vec<u16>,
}

/// Whether a window class is one of our own surfaces or the stock desktop.
pub open spec fn is_desktop_class(class: Seq<char>) -> bool {
    ||| text::starts_with(class, "WinRestyle"@)
    ||| class == "Progman"@
    ||| class == "WorkerW"@
}

/// Whether a window gets a button: visible, not a tool window and unowned
/// (unless it forces itself in), not cloaked, titled, and never one of our own
/// surfaces.
pub open spec fn deserves_button(f: WindowFacts) -> bool {
    let forced = f.ex_style & WS_EX_APPWINDOW != 0;
    &&& f.visible
    &&& f.ex_style & WS_EX_TOOLWINDOW == 0 || forced
    &&& !f.owned || forced
    &&& !f.cloaked
    &&& !is_desktop_class(text::utf16_text(f.class@))
    &&& f.title@.len() > 0
}

/// The button of a window, if it gets one.
pub fn task_window(f: &WindowFacts) -> (r: Option<TaskWindow>)
    ensures
        r is Some <==> deserves_button(*f),
        r matches Some(w) ==> w.hwnd == f.hwnd && w.title@ == text::utf16_text(f.title@),
{
    if !f.visible {
        return None;
    }
    let forced: bool = f.ex_style & WS_EX_APPWINDOW != 0;
    if f.ex_style & WS_EX_TOOLWINDOW != 0 && !forced {
        return None;
    }
    if f.owned && !forced {
        return None;
    }
    if f.cloaked {
        return None;
    }
    let class = text::utf16_lossy(&f.class);
    if text::strip_prefix(class.as_str(), "WinRestyle").is_some() || text::same_text(
        class.as_str(),
        "Progman",
    ) || text::same_text(class.as_str(), "WorkerW") {
        return None;
    }
    if f.title.len() == 0 {
        return None;
    }
    Some(TaskWindow { hwnd: f.hwnd, title: text::utf16_lossy(&f.title) })
}

/// A window list as handles and titles.
pub open spec fn buttons(windows: Seq<TaskWindow>) -> Seq<(isize, Seq<char>)> {
    windows.map_values(|w: TaskWindow| (w.hwnd, w.title@))
}

/// The buttons of the windows that get one, in the windows' order.
pub open spec fn deserved(facts: Seq<WindowFacts>) -> Seq<(isize, Seq<char>)>
    decreases facts.len(),
{
    if facts.len() == 0 {
        Seq::empty()
    } else {
        let rest = deserved(facts.drop_last());
        if deserves_button(facts.last()) {
            rest.push((facts.last().hwnd, text::utf16_text(facts.last().title@)))
        } else {
            rest
        }
    }
}

/// The taskbar-worthy windows, in the order they were met.
pub fn enumerate(facts: &Vec<WindowFacts>) -> (r: Vec<TaskWindow>)
    ensures
        buttons(r@) == deserved(facts@),
{
    let mut out: Vec<TaskWindow> = Vec::new();
    let mut i: usize = 0;
    proof {
        assert(buttons(out@) =~= Seq::<(isize, Seq<char>)>::empty());
    }
    while i < facts.len()
        invariant
            i <= facts@.len(),
            buttons(out@) == deserved(facts@.take(i as int)),
        decreases facts@.len() - i,
    {
        proof {
            assert(facts@.take(i + 1).drop_last() =~= facts@.take(i as int));
            assert(facts@.take(i + 1).last() == facts@[i as int]);
        }
        if let Some(w) = task_window(&facts[i]) {
            proof {
                assert(buttons(out@.push(w)) =~= buttons(out@).push((w.hwnd, w.title@)));
            }
            out.push(w);
        }
        i = i + 1;
    }
    proof {
        assert(facts@.take(facts@.len() as int) =~= facts@);
    }
    out
}

/// Whether two window lists show the same buttons.
pub fn same_buttons(a: &Vec<TaskWindow>, b: &Vec<TaskWindow>) -> (r: bool)
    ensures
        r == (buttons(a@) == buttons(b@)),
{
    if a.len() != b.len() {
        proof {
            assert(buttons(a@).len() == a@.len());
            assert(buttons(b@).len() == b@.len());
        }
        return false;
    }
    let mut i: usize = 0;
    while i < a.len()
        invariant
            a@.len() == b@.len(),
            i <= a@.len(),
            forall|j: int|
                0 <= j < i ==> (#[trigger] a@[j]).hwnd == b@[j].hwnd && a@[j].title@
                    == b@[j].title@,
        decreases a@.len() - i,
    {
        if a[i].hwnd != b[i].hwnd || !text::same_text(a[i].title.as_str(), b[i].title.as_str()) {
            proof {
                assert(buttons(a@)[i as int] == (a@[i as int].hwnd, a@[i as int].title@));
                assert(buttons(b@)[i as int] == (b@[i as int].hwnd, b@[i as int].title@));
            }
            return false;
        }
        i = i + 1;
    }
    proof {
        assert(buttons(a@) =~= buttons(b@));
    }
    true
}

/// The object id of a whole window in a window event.
pub const OBJID_WINDOW: i32 = 0;

/// The latch between the window events and the bar: which bar they notify, and
/// whether a notification is on its way.
#[derive(Debug, Clone, Copy, PartialEq, Eq, Structural)]
pub struct RefreshLatch {
    /// The bar window that is notified; 0 until the hooks are installed.
    pub bar: isize,
    /// A notification is posted and not yet handled.
    pub pending: bool,
}

impl RefreshLatch {
    /// No bar to notify yet.
    pub fn new() -> (r: Self)
        ensures
            r == (RefreshLatch { bar: 0, pending: false }),
    {
        RefreshLatch { bar: 0, pending: false }
    }

    /// Aim the notifications at a bar window.
    pub fn retarget(&mut self, bar: isize)
        ensures
            *final(self) == (RefreshLatch { bar, ..*old(self) }),
    {
        self.bar = bar;
    }

    /// Re-arm the latch. The bar does so before it looks at the windows, so that
    /// events during the refresh notify it again.
    pub fn ack_refresh(&mut self)
        ensures
            *final(self) == (RefreshLatch { pending: false, ..*old(self) }),
    {
        self.pending = false;
    }

    /// A window event happened: the bar to notify, if it is to be. Only events
    /// of whole windows count, and only the first since the last
    /// acknowledgement notifies.
    pub fn win_event(&mut self, object: i32, child: i32) -> (r: Option<isize>)
        ensures
            (*final(self), r) == after_event(*old(self), object, child),
    {
        if object != OBJID_WINDOW || child != 0 || self.bar == 0 {
            return None;
        }
        if self.pending {
            return None;
        }
        self.pending = true;
        Some(self.bar)
    }
}

/// Whether an event is one of a whole window.
pub open spec fn is_window_event(object: i32, child: i32) -> bool {
    object == OBJID_WINDOW && child == 0
}

/// The latch after an event, and the bar that the event notifies.
pub open spec fn after_event(
    latch: RefreshLatch,
    object: i32,
    child: i32,
) -> (RefreshLatch, Option<isize>) {
    if is_window_event(object, child) && latch.bar != 0 && !latch.pending {
        (RefreshLatch { pending: true, ..latch }, Some(latch.bar))
    } else {
        (latch, None)
    }
}

/// The latch after a run of events, and how many notifications it posted.
pub open spec fn after_events(latch: RefreshLatch, events: Seq<(i32, i32)>) -> (RefreshLatch, nat)
    decreases events.len(),
{
    if events.len() == 0 {
        (latch, 0)
    } else {
        let (before, posted) = after_events(latch, events.drop_last());
        let (after, notified) = after_event(before, events.last().0, events.last().1);
        (after, if notified is Some {
            posted + 1
        } else {
            posted
        })
    }
}

/// However many events come, the bar is notified at most once before it
/// acknowledges, and it is notified if any of them was of a whole window.
pub proof fn law_a_storm_notifies_once(latch: RefreshLatch, events: Seq<(i32, i32)>)
    requires
        latch.bar != 0,
        !latch.pending,
    ensures
        after_events(latch, events).0.bar == latch.bar,
        after_events(latch, events).0.pending <==> exists|i: int|
            0 <= i < events.len() && is_window_event((#[trigger] events[i]).0, events[i].1),
        after_events(latch, events).1 == if after_events(latch, events).0.pending {
            1nat
        } else {
            0nat
        },
    decreases events.len(),
{
    if events.len() > 0 {
        let init = events.drop_last();
        law_a_storm_notifies_once(latch, init);
        if exists|i: int|
            0 <= i < init.len() && is_window_event((#[trigger] init[i]).0, init[i].1) {
            let i = choose|i: int|
                0 <= i < init.len() && is_window_event((#[trigger] init[i]).0, init[i].1);
            assert(events[i] == init[i]);
        }
        if exists|i: int|
            0 <= i < events.len() && is_window_event((#[trigger] events[i]).0, events[i].1) {
            let i = choose|i: int|
                0 <= i < events.len() && is_window_event((#[trigger] events[i]).0, events[i].1);
            if i < init.len() {
                assert(init[i] == events[i]);
            }
        }
        assert(events.last() == events[events.len() - 1]);
    }
}

/// The icon handle a window is drawn with: the first it answers with, or the
/// class icons behind it.
pub open spec fn first_handle(handles: Seq<usize>) -> Option<usize>
    decreases handles.len(),
{
    if handles.len() == 0 {
        None
    } else if handles[0] != 0 {
        Some(handles[0])
    } else {
        first_handle(handles.skip(1))
    }
}

/// The first handle there is (0 is none), in the order asked: the small icon the
/// window paints for a taskbar, its small, its big one, and its class's small
/// and big ones.
pub fn window_icon(handles: &[usize]) -> (r: Option<usize>)
    ensures
        r == first_handle(handles@),
{
    let mut i: usize = 0;
    proof {
        assert(handles@.skip(0) =~= handles@);
    }
    while i < handles.len()
        invariant
            i <= handles@.len(),
            first_handle(handles@.skip(i as int)) == first_handle(handles@),
        decreases handles@.len() - i,
    {
        proof {
            assert(handles@.skip(i as int)[0] == handles@[i as int]);
            assert(handles@.skip(i as int).skip(1) =~= handles@.skip(i + 1));
        }
        if handles[i] != 0 {
            return Some(handles[i]);
        }
        i = i + 1;
    }
    None
}

/// The largest side of an icon that is decoded.
pub const MAX_ICON_SIDE: i32 = 256;

/// The bytes of an icon's 32-bit pixels, where its size is one that is decoded.
pub fn icon_bytes(w: i32, h: i32) -> (r: Option<usize>)
    ensures
        r is Some <==> 1 <= w <= MAX_ICON_SIDE && 1 <= h <= MAX_ICON_SIDE,
        r matches Some(n) ==> n == w * h * 4,
{
    if 1 <= w && w <= MAX_ICON_SIDE && 1 <= h && h <= MAX_ICON_SIDE {
        assert(1 <= w * h <= 0x1_0000) by (nonlinear_arith)
            requires
                1 <= w <= 256,
                1 <= h <= 256,
        ;
        Some((w as usize) * (h as usize) * 4)
    } else {
        None
    }
}

/// Whether what opening a file returned means that it failed: values up to 32
/// are error codes.
pub fn launch_failed(code: usize) -> (r: bool)
    ensures
        r == (code <= 32),
{
    code <= 32
}

/// The window an overflow menu's command stands for: commands count from 1, and
/// 0 is a dismissal.
pub fn overflow_choice(items: &Vec<(isize, String)>, command: usize) -> (r: Option<isize>)
    ensures
        r == if 1 <= command <= items@.len() {
            Some(items@[command - 1].0)
        } else {
            None
        },
{
    if command >= 1 && command <= items.len() {
        Some(items[command - 1].0)
    } else {
        None
    }
}

/// Whether a directory called `target` stands between separators at `at`.
pub open spec fn target_dir_at(path: Seq<char>, at: int) -> bool {
    &&& 0 <= at
    &&& at + 8 <= path.len()
    &&& paths::is_separator(path[at])
    &&& text::same_ignoring_case(path.subrange(at + 1, at + 7), "target"@)
    &&& paths::is_separator(path[at + 7])
}

/// The last place before `end` where such a directory stands.
pub open spec fn last_target_dir(path: Seq<char>, end: int) -> Option<int>
    decreases end,
{
    if end <= 0 {
        None
    } else if target_dir_at(path, end - 1) {
        Some(end - 1)
    } else {
        last_target_dir(path, end - 1)
    }
}

/// The source tree an executable was built in: what its innermost `target`
/// directory is in.
pub open spec fn source_tree_of(exe: Seq<char>) -> Option<Seq<char>> {
    match last_target_dir(exe, exe.len() as int) {
        Some(at) => Some(exe.take(at)),
        None => None,
    }
}

/// The source tree an executable was built in, for one that sits below a
/// `target` directory.
pub fn source_tree(exe: &str) -> (r: Option<String>)
    ensures
        crate::config::optional_text(r) == source_tree_of(exe@),
{
    let chars = text::chars_of(exe);
    let mut end: usize = chars.len();
    while end > 0
        invariant
            chars@ == exe@,
            end <= chars@.len(),
            last_target_dir(chars@, end as int) == last_target_dir(
                chars@,
                chars@.len() as int,
            ),
        decreases end,
    {
        let at: usize = end - 1;
        if chars.len() - at >= 8 && (chars[at] == '\\' || chars[at] == '/') && (chars[at + 7]
            == '\\' || chars[at + 7] == '/') {
            let name = text::string_of(&chars, at + 1, at + 7);
            if text::eq_ignore_case(name.as_str(), "target") {
                let root = text::string_of(&chars, 0, at);
                proof {
                    assert(root@ =~= exe@.take(at as int));
                }
                return Some(root);
            }
        }
        end = at;
    }
    None
}

/// Whether this is a dev build: one run from where it was built, below a
/// `target` directory, and no shipped install.
pub fn dev_mode(exe: &str) -> (r: bool)
    ensures
        r == (source_tree_of(exe@) is Some),
{
    source_tree(exe).is_some()
}

/// A program to start, detached from this one.
#[derive(Debug, PartialEq, Eq)]
pub struct ActionLaunch {
    pub file: String,
    pub arguments: &'static str,
    /// Where it starts, if not where this one did.
    pub directory: Option<String>,
}

/// Whether `r` is what an action starts: the restore and the settings are the
/// installer beside this executable, the dev helpers a terminal in the source
/// tree. The tests run without a build, since the running executables are
/// locked, and leave the terminal open.
pub open spec fn is_action_launch(r: Option<ActionLaunch>, kind: ActionKind, exe: Seq<char>) -> bool {
    match kind {
        ActionKind::Restore | ActionKind::Settings => {
            &&& r is Some <==> paths::parent_of(exe) is Some
            &&& r matches Some(l) ==> {
                &&& l.file@ == paths::beside(exe, crate::INSTALLER_EXE@)
                &&& l.arguments@ == if kind == ActionKind::Restore {
                    "deactivate"@
                } else {
                    ""@
                }
                &&& l.directory is None
            }
        },
        ActionKind::Terminal | ActionKind::RunTests => {
            &&& r is Some <==> source_tree_of(exe) is Some
            &&& r matches Some(l) ==> {
                &&& l.file@ == "powershell.exe"@
                &&& l.arguments@ == if kind == ActionKind::Terminal {
                    "-NoExit"@
                } else {
                    "-NoExit -ExecutionPolicy Bypass -File scripts\\vm-test.ps1 -SkipBuild"@
                }
                &&& crate::config::optional_text(l.directory) == source_tree_of(exe)
            }
        },
    }
}

/// What an action starts, for this executable.
pub fn run_menu_action(kind: ActionKind, exe: &str) -> (r: Option<ActionLaunch>)
    ensures
        is_action_launch(r, kind, exe@),
{
    match kind {
        ActionKind::Restore => match paths::sibling(exe, crate::INSTALLER_EXE) {
            Some(file) => Some(ActionLaunch { file, arguments: "deactivate", directory: None }),
            None => None,
        },
        ActionKind::Settings => match paths::sibling(exe, crate::INSTALLER_EXE) {
            Some(file) => Some(ActionLaunch { file, arguments: "", directory: None }),
            None => None,
        },
        ActionKind::Terminal => match source_tree(exe) {
            Some(root) => Some(
                ActionLaunch {
                    file: "powershell.exe".to_owned(),
                    arguments: "-NoExit",
                    directory: Some(root),
                },
            ),
            None => None,
        },
        ActionKind::RunTests => match source_tree(exe) {
            Some(root) => Some(
                ActionLaunch {
                    file: "powershell.exe".to_owned(),
                    arguments: "-NoExit -ExecutionPolicy Bypass -File scripts\\vm-test.ps1 -SkipBuild",
                    directory: Some(root),
                },
            ),
            None => None,
        },
    }
}

/// Our own surfaces never get a button, whatever else they are.
pub proof fn law_own_surfaces_get_no_button(f: WindowFacts)
    requires
        ({
            let class = text::utf16_text(f.class@);
            ||| class == crate::TASKBAR_WINDOW_CLASS@
            ||| class == crate::taskbar::menu::MENU_WINDOW_CLASS@
            ||| class == crate::wallpaper::WALLPAPER_WINDOW_CLASS@
            ||| class == crate::installer::app::MANAGER_WINDOW_CLASS@
        }),
    ensures
        !deserves_button(f),
{
    reveal_strlit("WinRestyle");
    reveal_strlit("WinRestyleTaskbar");
    reveal_strlit("WinRestyleStartMenu");
    reveal_strlit("WinRestyleWallpaper");
    reveal_strlit("WinRestyleManager");
    let class = text::utf16_text(f.class@);
    assert(class.take(10) =~= "WinRestyle"@);
}

/// Which windows get a button: visible ones with a title that no other window
/// owns and that are no tool windows, unless they ask to be on the taskbar; none
/// that the compositor hides, and none of the desktop's own.
pub proof fn law_ordinary_windows_get_a_button(f: WindowFacts)
    ensures
        ({
            let class = text::utf16_text(f.class@);
            let forced = f.ex_style & 0x4_0000 != 0;
            let own = exists|rest: Seq<char>| class == #[trigger] ("WinRestyle"@ + rest);
            deserves_button(f) <==> f.visible && f.title@.len() > 0 && !f.cloaked && (forced || (
            !f.owned && f.ex_style & 0x80 == 0)) && class != "Progman"@ && class != "WorkerW"@
                && !own
        }),
{
    text::law_parts_stand_anywhere(text::utf16_text(f.class@), "WinRestyle"@);
}

/// Windows are judged one by one, in their order, and a button has its window's
/// handle and title.
pub proof fn law_buttons_keep_the_order_of_the_windows(
    a: Seq<WindowFacts>,
    b: Seq<WindowFacts>,
    f: WindowFacts,
)
    ensures
        deserved(Seq::empty()).len() == 0,
        deserved(a + b) == deserved(a) + deserved(b),
        deserves_button(f) ==> deserved(seq![f]) == seq![(f.hwnd, text::utf16_text(f.title@))],
        !deserves_button(f) ==> deserved(seq![f]).len() == 0,
    decreases b.len(),
{
    let one = seq![f];
    assert(one.drop_last() =~= Seq::<WindowFacts>::empty());
    assert(one.last() == f);
    assert(deserved(one.drop_last()) =~= Seq::<(isize, Seq<char>)>::empty());
    if deserves_button(f) {
        assert(deserved(one) =~= seq![(f.hwnd, text::utf16_text(f.title@))]);
    }
    if b.len() == 0 {
        assert(a + b =~= a);
        assert(deserved(a) + deserved(b) =~= deserved(a));
    } else {
        law_buttons_keep_the_order_of_the_windows(a, b.drop_last(), f);
        assert((a + b).drop_last() =~= a + b.drop_last());
        assert((a + b).last() == b.last());
        assert(deserved(a + b) =~= deserved(a) + deserved(b));
    }
}

/// A button list is as long as the window list and says, place by place, the
/// handle and the title.
pub proof fn law_buttons_are_handles_and_titles(windows: Seq<TaskWindow>, i: int)
    requires
        0 <= i < windows.len(),
    ensures
        buttons(windows).len() == windows.len(),
        buttons(windows)[i] == (windows[i].hwnd, windows[i].title@),
{
}

/// An event counts where it is of a whole window (object 0, child 0). The first
/// one notifies the bar there is; until that is acknowledged no other does.
pub proof fn law_only_the_first_event_notifies(latch: RefreshLatch, object: i32, child: i32)
    ensures
        ({
            let (after, notified) = after_event(latch, object, child);
            &&& notified is Some <==> object == 0 && child == 0 && latch.bar != 0 && !latch.pending
            &&& notified matches Some(bar) ==> bar == latch.bar
            &&& after.bar == latch.bar
            &&& after.pending == (latch.pending || notified is Some)
        }),
{
}

/// The first handle that is none is passed over, and so on: the icon is the first
/// that there is.
pub proof fn law_the_first_icon_there_is_counts(handles: Seq<usize>, k: int)
    requires
        0 <= k <= handles.len(),
        forall|i: int| 0 <= i < k ==> #[trigger] handles[i] == 0,
        k < handles.len() ==> handles[k] != 0,
    ensures
        first_handle(handles) == if k < handles.len() {
            Some(handles[k])
        } else {
            None
        },
    decreases handles.len(),
{
    if handles.len() > 0 && k > 0 {
        let rest = handles.skip(1);
        assert(handles[0] == 0);
        assert forall|i: int| 0 <= i < k - 1 implies #[trigger] rest[i] == 0 by {
            assert(rest[i] == handles[i + 1]);
        }
        law_the_first_icon_there_is_counts(rest, k - 1);
    }
}

/// Icons are decoded up to 256 pixels a side.
pub proof fn law_icons_are_bounded()
    ensures
        MAX_ICON_SIDE == 256,
{
}

/// An executable below a `target` directory, in any case and between separators of
/// either kind, was built in the tree that holds it; of several such directories
/// the innermost counts. Any other executable was not built here.
pub proof fn law_the_innermost_target_tells_the_tree(
    root: Seq<char>,
    a: char,
    name: Seq<char>,
    b: char,
    rest: Seq<char>,
    exe: Seq<char>,
)
    ensures
        (a == '\\' || a == '/') && (b == '\\' || b == '/') && text::same_ignoring_case(
            name,
            "target"@,
        ) && exe == root + seq![a] + name + seq![b] + rest ==> source_tree_of(exe) is Some && (
        source_tree_of(exe)->0).len() >= root.len(),
        source_tree_of(exe) matches Some(t) ==> {
            let n = t.len() as int;
            &&& exe.len() >= n + 8
            &&& exe.take(n) == t
            &&& exe[n] == '\\' || exe[n] == '/'
            &&& text::same_ignoring_case(exe.subrange(n + 1, n + 7), "target"@)
            &&& exe[n + 7] == '\\' || exe[n + 7] == '/'
        },
{
    reveal_strlit("target");
    text::law_case_is_of_ascii_letters_only(name, "target"@);
    lemma_last_target_dir(exe, exe.len() as int);
    if (a == '\\' || a == '/') && (b == '\\' || b == '/') && text::same_ignoring_case(
        name,
        "target"@,
    ) && exe == root + seq![a] + name + seq![b] + rest {
        let at = root.len() as int;
        assert(name.len() == 6);
        assert(exe.subrange(at + 1, at + 7) =~= name);
        assert(exe[at] == a);
        assert(exe[at + 7] == b);
        assert(target_dir_at(exe, at));
    }
    if let Some(t) = source_tree_of(exe) {
        assert(exe.take(t.len() as int) =~= t);
    }
}

proof fn lemma_last_target_dir(path: Seq<char>, end: int)
    requires
        0 <= end <= path.len(),
    ensures
        match last_target_dir(path, end) {
            Some(at) => 0 <= at < end && target_dir_at(path, at) && forall|k: int|
                at < k < end ==> !(#[trigger] target_dir_at(path, k)),
            None => forall|k: int| 0 <= k < end ==> !(#[trigger] target_dir_at(path, k)),
        },
    decreases end,
{
    if end > 0 && !target_dir_at(path, end - 1) {
        lemma_last_target_dir(path, end - 1);
    }
}

/// Restoring and the settings start the installer beside this program, the former
/// with its command; the dev helpers start a terminal in the source tree.
pub proof fn law_actions_start_their_program(
    r: Option<ActionLaunch>,
    kind: ActionKind,
    exe: Seq<char>,
)
    requires
        is_action_launch(r, kind, exe),
        r is Some,
    ensures
        ({
            let l = r->0;
            match kind {
                ActionKind::Restore => l.file@ == paths::beside(exe, "wr-installer.exe"@)
                    && l.arguments@ == "deactivate"@ && l.directory is None,
                ActionKind::Settings => l.file@ == paths::beside(exe, "wr-installer.exe"@)
                    && l.arguments@ == ""@ && l.directory is None,
                ActionKind::Terminal => l.file@ == "powershell.exe"@ && l.arguments@ == "-NoExit"@
                    && source_tree_of(exe) is Some && l.directory is Some && (l.directory->0)@ == (
                source_tree_of(exe)->0),
                ActionKind::RunTests => l.file@ == "powershell.exe"@ && l.arguments@
                    == "-NoExit -ExecutionPolicy Bypass -File scripts\\vm-test.ps1 -SkipBuild"@
                    && source_tree_of(exe) is Some && l.directory is Some && (l.directory->0)@ == (
                source_tree_of(exe)->0),
            }
        }),
{
}

/// Window styles and events by the numbers the system gives them.
pub proof fn law_windows_have_the_systems_numbers()
    ensures
        WM_WINDOWS_CHANGED == 0x8002,
        WS_EX_APPWINDOW == 0x0004_0000,
        OBJID_WINDOW == 0,
{
}

} // verus!
