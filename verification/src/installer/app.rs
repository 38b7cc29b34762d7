//! The manager window's model: what is checked, what is hovered, what a message
//! does to it, and how an apply and a restore run.
//!
//! The window procedure hands messages in and performs what comes back. A
//! message box and the apply and restore actions run a message loop of their
//! own, so no step here spans one: each action is a step, and what became of it
//! selects the next.
use vstd::prelude::*;

use crate::autostart::AutostartEntry;
use crate::components::{self, Component, Registry};
use crate::config::{self, Config};
use crate::geometry::{self, max_i32};
use crate::installer::view::{self, Hit, Layout};
use crate::message;
use crate::text;

verus! {

/// Window class of the manager window.
pub const MANAGER_WINDOW_CLASS: &'static str = "WinRestyleManager";

/// The whole manager state.
pub struct Manager {
    pub registry: Registry,
    /// The config as last loaded or applied, which every edit builds on.
    pub base_config: Config,
    /// Checked component ids.
    pub selected: Vec<String>,
    /// The logon-startup entries.
    pub entries: Vec<AutostartEntry>,
    /// Per-entry checkbox: `true` lets it run (it is not on the disabled list).
    pub entry_checked: Vec<bool>,
    pub scroll: i32,
    pub hovered: Option<Hit>,
    pub dpi: u32,
    /// One-line status shown in the footer.
    pub status: String,
    /// Whether the restyled shell is the registered one.
    pub subtitle: String,
    /// Buttons dim and stop responding while an apply or a restore runs.
    pub busy: bool,
    pub mouse_tracking: bool,
}

impl Manager {
    /// Every entry has its checkbox.
    pub open spec fn is_valid(&self) -> bool {
        self.entry_checked@.len() == self.entries@.len()
    }

    /// The checked component ids, as a set.
    pub open spec fn selection(&self) -> Set<Seq<char>> {
        text::texts(self.selected@).to_set()
    }
}

/// Whether each checkbox says that the entry is not disabled in a
/// configuration.
pub open spec fn checks_match(
    checked: Seq<bool>,
    entries: Seq<AutostartEntry>,
    disabled: Seq<Seq<char>>,
) -> bool {
    &&& checked.len() == entries.len()
    &&& forall|i: int|
        0 <= i < checked.len() ==> #[trigger] checked[i] == !text::listed_ignoring_case(
            disabled,
            entries[i].id@,
        )
}

/// A fresh model of the current config and startup entries: what is on is
/// checked, and an entry is checked unless it is disabled.
pub fn build_model(
    dpi: u32,
    base_config: Config,
    entries: Vec<AutostartEntry>,
    subtitle: String,
) -> (r: Manager)
    ensures
        r.is_valid(),
        r.registry.components@ == components::all_components(),
        r.base_config == base_config,
        text::texts(r.selected@) == components::ids_on(
            components::all_components(),
            base_config@,
        ),
        r.entries == entries,
        checks_match(r.entry_checked@, entries@, base_config@.autostart.disabled),
        r.scroll == 0,
        r.hovered is None,
        r.dpi == dpi,
        r.status@.len() == 0,
        r.subtitle == subtitle,
        !r.busy,
        !r.mouse_tracking,
{
    let registry = Registry::all();
    let selected = registry.installed_ids(&base_config);
    let mut entry_checked: Vec<bool> = Vec::new();
    let mut i: usize = 0;
    while i < entries.len()
        invariant
            i <= entries@.len(),
            checks_match(
                entry_checked@,
                entries@.take(i as int),
                base_config@.autostart.disabled,
            ),
        decreases entries@.len() - i,
    {
        entry_checked.push(!base_config.autostart.is_disabled(entries[i].id.as_str()));
        i = i + 1;
    }
    proof {
        assert(entries@.take(entries@.len() as int) =~= entries@);
    }
    Manager {
        registry,
        base_config,
        selected,
        entries,
        entry_checked,
        scroll: 0,
        hovered: None,
        dpi,
        status: String::new(),
        subtitle,
        busy: false,
        mouse_tracking: false,
    }
}

/// What is known of the registered shell.
#[derive(Debug, PartialEq, Eq)]
pub enum ShellState {
    /// There is a backup, so the shell is swapped; whether the watchdog runs in
    /// this session.
    Installed { running: bool },
    NotInstalled,
    /// The registry could not be read, and why.
    Unknown(String),
}

pub const LINE_ACTIVE: &'static str = "WinRestyle is installed and active in this session.";
pub const LINE_INSTALLED: &'static str =
    "WinRestyle is installed — active at the next login (or Restyle Now → activate).";
pub const LINE_ABSENT: &'static str =
    "Not installed — the standard Windows shell is active.";
pub const LINE_UNKNOWN: &'static str = "Could not read shell state: ";

/// The line a shell state is shown as.
pub open spec fn shell_line(state: ShellState) -> Seq<char> {
    match state {
        ShellState::Installed { running: true } => LINE_ACTIVE@,
        ShellState::Installed { running: false } => LINE_INSTALLED@,
        ShellState::NotInstalled => LINE_ABSENT@,
        ShellState::Unknown(e) => LINE_UNKNOWN@ + e@,
    }
}

/// A one-line summary of whether the restyled shell is the registered one.
pub fn shell_status_line(state: &ShellState) -> (r: String)
    ensures
        r@ == shell_line(*state),
{
    match state {
        ShellState::Installed { running } => if *running {
            LINE_ACTIVE.to_owned()
        } else {
            LINE_INSTALLED.to_owned()
        },
        ShellState::NotInstalled => LINE_ABSENT.to_owned(),
        ShellState::Unknown(e) => text::joined(LINE_UNKNOWN, e.as_str()),
    }
}

/// The window's size at 96 DPI.
pub const WINDOW_W: i32 = 560;
pub const WINDOW_H: i32 = 680;

/// Where a side of the window goes: centred, or `None` for the system's choice
/// where that would be the screen's edge or beyond it.
pub open spec fn centred(screen: int, side: int) -> Option<i32> {
    let at = geometry::trunc_div(screen - side, 2);
    if at > 0 {
        Some(at as i32)
    } else {
        None
    }
}

/// Where the window is created on a screen of that size.
pub fn window_origin(screen_w: i32, screen_h: i32) -> (r: (Option<i32>, Option<i32>))
    requires
        geometry::is_i32(screen_w - WINDOW_W),
        geometry::is_i32(screen_h - WINDOW_H),
    ensures
        r.0 == centred(screen_w as int, WINDOW_W as int),
        r.1 == centred(screen_h as int, WINDOW_H as int),
{
    let x: i32 = max_i32((screen_w - WINDOW_W) / 2, 0);
    let y: i32 = max_i32((screen_h - WINDOW_H) / 2, 0);
    (
        if x == 0 {
            None
        } else {
            Some(x)
        },
        if y == 0 {
            None
        } else {
            Some(y)
        },
    )
}

/// The DPI the window is laid out at: never below the nominal one.
pub fn effective_dpi(dpi: u32) -> (r: u32)
    ensures
        r == geometry::max_of(dpi as int, 96),
{
    if dpi >= 96 {
        dpi
    } else {
        96
    }
}

/// The smallest size the window may be dragged to, at 96 DPI.
pub const MIN_W: i32 = 380;
pub const MIN_H: i32 = 320;

/// The smallest size the window may be dragged to.
pub fn min_track_size(dpi: u32) -> (r: (i32, i32))
    ensures
        r.0 == view::at_dpi(MIN_W as int, dpi),
        r.1 == view::at_dpi(MIN_H as int, dpi),
{
    (view::scale(MIN_W, dpi), view::scale(MIN_H, dpi))
}

/// Window messages the manager answers.
pub const WM_DESTROY: u32 = 0x0002;
pub const WM_SIZE: u32 = 0x0005;
pub const WM_PAINT: u32 = 0x000f;
pub const WM_ERASEBKGND: u32 = 0x0014;
pub const WM_GETMINMAXINFO: u32 = 0x0024;
pub const WM_MOUSEMOVE: u32 = 0x0200;
pub const WM_LBUTTONUP: u32 = 0x0202;
pub const WM_MOUSEWHEEL: u32 = 0x020a;
pub const WM_MOUSELEAVE: u32 = 0x02a3;
pub const WM_DPICHANGED: u32 = 0x02e0;

/// What a message asks of the manager window.
#[derive(Debug, Clone, Copy, PartialEq, Eq, Structural)]
pub enum ManagerEvent {
    Paint,
    /// Answered with 1: a paint covers every pixel.
    Erase,
    MouseMove(i32, i32),
    MouseLeave,
    Wheel(i32),
    Click(i32, i32),
    /// The client area has this size now.
    Resize(i32, i32),
    /// The window's monitor has this DPI now.
    DpiChanged(u32),
    AskMinSize,
    Quit,
    /// Left to the default procedure.
    Other,
}

/// What a message asks for.
pub open spec fn manager_event(msg: u32, wparam: usize, lparam: isize) -> ManagerEvent {
    let x = message::signed(message::low(lparam as int)) as i32;
    let y = message::signed(message::high(lparam as int)) as i32;
    if msg == WM_PAINT {
        ManagerEvent::Paint
    } else if msg == WM_ERASEBKGND {
        ManagerEvent::Erase
    } else if msg == WM_MOUSEMOVE {
        ManagerEvent::MouseMove(x, y)
    } else if msg == WM_MOUSELEAVE {
        ManagerEvent::MouseLeave
    } else if msg == WM_MOUSEWHEEL {
        ManagerEvent::Wheel(message::signed(message::high(wparam as int)) as i32)
    } else if msg == WM_LBUTTONUP {
        ManagerEvent::Click(x, y)
    } else if msg == WM_SIZE {
        ManagerEvent::Resize(
            geometry::max_of(message::low(lparam as int), 1) as i32,
            geometry::max_of(message::high(lparam as int), 1) as i32,
        )
    } else if msg == WM_DPICHANGED {
        ManagerEvent::DpiChanged(geometry::max_of(message::low(wparam as int), 96) as u32)
    } else if msg == WM_GETMINMAXINFO {
        ManagerEvent::AskMinSize
    } else if msg == WM_DESTROY {
        ManagerEvent::Quit
    } else {
        ManagerEvent::Other
    }
}

/// Sort a window message and read its parameters.
pub fn wndproc(msg: u32, wparam: usize, lparam: isize) -> (r: ManagerEvent)
    ensures
        r == manager_event(msg, wparam, lparam),
{
    match msg {
        WM_PAINT => ManagerEvent::Paint,
        WM_ERASEBKGND => ManagerEvent::Erase,
        WM_MOUSEMOVE => ManagerEvent::MouseMove(
            message::mouse_x(lparam),
            message::mouse_y(lparam),
        ),
        WM_MOUSELEAVE => ManagerEvent::MouseLeave,
        WM_MOUSEWHEEL => ManagerEvent::Wheel(message::wheel_delta(wparam)),
        WM_LBUTTONUP => ManagerEvent::Click(message::mouse_x(lparam), message::mouse_y(lparam)),
        WM_SIZE => {
            let (w, h) = message::client_size(lparam);
            ManagerEvent::Resize(w, h)
        },
        WM_DPICHANGED => ManagerEvent::DpiChanged(effective_dpi(message::word_of(wparam))),
        WM_GETMINMAXINFO => ManagerEvent::AskMinSize,
        WM_DESTROY => ManagerEvent::Quit,
        _ => ManagerEvent::Other,
    }
}

impl Manager {
    /// Whether the window of that client size can be laid out, and the model's
    /// scroll offset moved in it.
    pub open spec fn fits(&self, w: i32, h: i32) -> bool {
        view::layout_fits(
            w as int,
            h as int,
            self.dpi,
            self.registry.components@.len() as int,
            self.entries@.len() as int,
        )
    }

    /// Whether `l` is the layout of this model in a window of that client size.
    pub open spec fn is_laid_out(&self, l: Layout, w: i32, h: i32) -> bool {
        l.is_layout_of(
            w as int,
            h as int,
            self.dpi,
            self.registry.components@.len() as int,
            self.entries@.len() as int,
        )
    }

    /// Lay the model out in a window of that client size.
    pub fn current_layout(&self, w: i32, h: i32) -> (r: Layout)
        requires
            self.fits(w, h),
        ensures
            self.is_laid_out(r, w, h),
    {
        view::layout(w, h, self.dpi, self.registry.components().len(), self.entries.len())
    }
}

/// The rows one wheel notch scrolls by.
pub const WHEEL_ROWS: i32 = 3;

/// The distance of one wheel notch.
pub const WHEEL_DELTA: i32 = 120;

/// How far a wheel distance scrolls, in pixels.
pub open spec fn wheel_step(dpi: u32, delta: int) -> int {
    geometry::trunc_div(view::at_dpi(view::ROW_H as int, dpi) * WHEEL_ROWS * delta, WHEEL_DELTA as int)
}

/// Whether a wheel distance can be scrolled by.
pub open spec fn wheel_fits(dpi: u32, delta: int, scroll: int) -> bool {
    let row = view::at_dpi(view::ROW_H as int, dpi);
    &&& geometry::is_i32(row * WHEEL_ROWS)
    &&& geometry::is_i32(row * WHEEL_ROWS * delta)
    &&& geometry::is_i32(scroll - wheel_step(dpi, delta))
}

/// What a click asks for.
#[derive(Debug, Clone, Copy, PartialEq, Eq, Structural)]
pub enum ClickEffect {
    Nothing,
    /// A checkbox changed.
    Redraw,
    /// Run an apply.
    Apply,
    /// Run a restore.
    Restore,
}

impl Manager {
    /// Everything but the scroll offset is as it was in `before`.
    pub open spec fn same_but_scroll(&self, before: &Manager) -> bool {
        *self == (Manager { scroll: self.scroll, ..*before })
    }

    /// Scroll by a wheel distance, three rows a notch: away from the user is
    /// up.
    pub fn on_wheel(&mut self, l: &Layout, delta: i32)
        requires
            wheel_fits(old(self).dpi, delta as int, old(self).scroll as int),
            geometry::is_i32(l.content_height - l.viewport_h),
        ensures
            final(self).same_but_scroll(old(self)),
            final(self).scroll == l.scroll_within(
                old(self).scroll - wheel_step(old(self).dpi, delta as int),
            ),
    {
        let step: i32 = view::scale(view::ROW_H, self.dpi) * WHEEL_ROWS * delta / WHEEL_DELTA;
        self.scroll = l.clamp_scroll(self.scroll - step);
    }

    /// Bring the scroll offset back into the window, which may have shrunk.
    pub fn keep_scroll_valid(&mut self, l: &Layout)
        requires
            geometry::is_i32(l.content_height - l.viewport_h),
        ensures
            final(self).same_but_scroll(old(self)),
            final(self).scroll == l.scroll_within(old(self).scroll as int),
    {
        self.scroll = l.clamp_scroll(self.scroll);
    }

    /// Everything but what the mouse is over is as it was in `before`.
    pub open spec fn same_but_hover(&self, before: &Manager) -> bool {
        *self == (Manager {
            hovered: self.hovered,
            mouse_tracking: self.mouse_tracking,
            ..*before
        })
    }

    /// The mouse is at a point: whether to redraw, and whether to ask to be told
    /// when it leaves.
    pub fn on_mouse_move(&mut self, l: &Layout, x: i32, y: i32) -> (r: (bool, bool))
        requires
            y < l.footer.y ==> geometry::is_i32(y + old(self).scroll),
        ensures
            final(self).same_but_hover(old(self)),
            final(self).hovered == l.hit_at(x as int, y as int, old(self).scroll as int),
            final(self).mouse_tracking,
            r.0 == (final(self).hovered != old(self).hovered),
            r.1 == !old(self).mouse_tracking,
    {
        let hovered = l.hit_test(x, y, self.scroll);
        let changed: bool = hovered != self.hovered;
        let arm: bool = !self.mouse_tracking;
        self.hovered = hovered;
        self.mouse_tracking = true;
        (changed, arm)
    }

    /// The system would not tell when the mouse leaves: ask again on the next
    /// move.
    pub fn tracking_failed(&mut self)
        ensures
            final(self).same_but_hover(old(self)),
            final(self).hovered == old(self).hovered,
            !final(self).mouse_tracking,
    {
        self.mouse_tracking = false;
    }

    /// The mouse left the window: whether to redraw.
    pub fn on_mouse_leave(&mut self) -> (r: bool)
        ensures
            final(self).same_but_hover(old(self)),
            final(self).hovered is None,
            !final(self).mouse_tracking,
            r == (old(self).hovered is Some),
    {
        let had: bool = self.hovered.is_some();
        self.hovered = None;
        self.mouse_tracking = false;
        had
    }

    /// The window moved to a monitor of another DPI.
    pub fn on_dpi_changed(&mut self, dpi: u32)
        ensures
            *final(self) == (Manager { dpi, ..*old(self) }),
    {
        self.dpi = dpi;
    }

    /// Check component `i` where it is unchecked, and uncheck it where it is
    /// checked.
    fn toggle_component(&mut self, i: usize)
        ensures
            *final(self) == (Manager { selected: final(self).selected, ..*old(self) }),
            i >= old(self).registry.components@.len() ==> final(self).selection()
                == old(self).selection(),
            i < old(self).registry.components@.len() ==> ({
                let id = old(self).registry.components@[i as int].id_text();
                final(self).selection() == if old(self).selection().contains(id) {
                    old(self).selection().remove(id)
                } else {
                    old(self).selection().insert(id)
                }
            }),
    {
        if i >= self.registry.components.len() {
            return;
        }
        let id: &'static str = self.registry.components[i].id();
        let mut kept: Vec<String> = Vec::new();
        let mut found: bool = false;
        let ghost all = text::texts(self.selected@);
        let mut k: usize = 0;
        while k < self.selected.len()
            invariant
                k <= self.selected@.len(),
                all == text::texts(self.selected@),
                *self == *old(self),
                found == all.take(k as int).contains(id@),
                forall|t: Seq<char>|
                    #![auto]
                    text::texts(kept@).contains(t) <==> all.take(k as int).contains(t) && t != id@,
            decreases self.selected@.len() - k,
        {
            let ghost before = all.take(k as int);
            let ghost after = all.take(k + 1);
            proof {
                assert(after =~= before.push(all[k as int]));
                assert(all[k as int] == self.selected@[k as int]@);
                lemma_push_contains(before, all[k as int]);
            }
            if text::same_text(self.selected[k].as_str(), id) {
                found = true;
            } else {
                let copy = self.selected[k].clone();
                proof {
                    assert(text::texts(kept@.push(copy)) =~= text::texts(kept@).push(copy@));
                    lemma_push_contains(text::texts(kept@), copy@);
                }
                kept.push(copy);
            }
            k = k + 1;
        }
        proof {
            assert(all.take(all.len() as int) =~= all);
        }
        if !found {
            let copy = id.to_owned();
            proof {
                assert(text::texts(kept@.push(copy)) =~= text::texts(kept@).push(copy@));
                lemma_push_contains(text::texts(kept@), copy@);
            }
            kept.push(copy);
        }
        self.selected = kept;
        proof {
            let was = old(self).selection();
            assert(self.selection() =~= if was.contains(id@) {
                was.remove(id@)
            } else {
                was.insert(id@)
            });
        }
    }

    /// A click at a point: checkboxes toggle, buttons start their action, and
    /// nothing happens while an action runs.
    pub fn on_click(&mut self, l: &Layout, x: i32, y: i32) -> (r: ClickEffect)
        requires
            y < l.footer.y ==> geometry::is_i32(y + old(self).scroll),
        ensures
            clicked(
                *old(self),
                if old(self).busy {
                    None
                } else {
                    l.hit_at(x as int, y as int, old(self).scroll as int)
                },
                *final(self),
                r,
            ),
    {
        if self.busy {
            return ClickEffect::Nothing;
        }
        match l.hit_test(x, y, self.scroll) {
            Some(Hit::Component(i)) => {
                self.toggle_component(i);
                ClickEffect::Redraw
            },
            Some(Hit::Startup(i)) => {
                if i < self.entry_checked.len() {
                    let on: bool = self.entry_checked[i];
                    self.entry_checked.set(i, !on);
                }
                ClickEffect::Redraw
            },
            Some(Hit::RestyleNow) => ClickEffect::Apply,
            Some(Hit::Restore) => ClickEffect::Restore,
            None => ClickEffect::Nothing,
        }
    }
}

/// What a list holds after one more item.
proof fn lemma_push_contains(list: Seq<Seq<char>>, item: Seq<char>)
    ensures
        forall|t: Seq<char>| #[trigger] list.push(item).contains(t) <==> list.contains(t) || t == item,
{
    assert forall|t: Seq<char>| #[trigger] list.push(item).contains(t) <==> list.contains(t) || t
        == item by {
        let more = list.push(item);
        if list.contains(t) {
            let i = choose|i: int| 0 <= i < list.len() && list[i] == t;
            assert(more[i] == t);
        }
        if t == item {
            assert(more[list.len() as int] == t);
        }
        if more.contains(t) {
            let i = choose|i: int| 0 <= i < more.len() && more[i] == t;
            if i < list.len() {
                assert(list[i] == t);
            }
        }
    }
}

/// What a click on `hit` does to the model, and what it asks for.
pub open spec fn clicked(
    before: Manager,
    hit: Option<Hit>,
    after: Manager,
    effect: ClickEffect,
) -> bool {
    match hit {
        Some(Hit::Component(i)) => {
            &&& effect == ClickEffect::Redraw
            &&& after == (Manager { selected: after.selected, ..before })
            &&& after.selection() == if i < before.registry.components@.len() {
                let id = before.registry.components@[i as int].id_text();
                if before.selection().contains(id) {
                    before.selection().remove(id)
                } else {
                    before.selection().insert(id)
                }
            } else {
                before.selection()
            }
        },
        Some(Hit::Startup(i)) => {
            &&& effect == ClickEffect::Redraw
            &&& after == (Manager { entry_checked: after.entry_checked, ..before })
            &&& after.entry_checked@ == if i < before.entry_checked@.len() {
                before.entry_checked@.update(i as int, !before.entry_checked@[i as int])
            } else {
                before.entry_checked@
            }
        },
        Some(Hit::RestyleNow) => effect == ClickEffect::Apply && after == before,
        Some(Hit::Restore) => effect == ClickEffect::Restore && after == before,
        None => effect == ClickEffect::Nothing && after == before,
    }
}

/// Checking a component twice leaves the selection as it was.
pub proof fn law_two_clicks_undo_each_other(
    a: Manager,
    b: Manager,
    c: Manager,
    i: usize,
    first: ClickEffect,
    second: ClickEffect,
)
    requires
        clicked(a, Some(Hit::Component(i)), b, first),
        clicked(b, Some(Hit::Component(i)), c, second),
    ensures
        c.selection() == a.selection(),
{
    assert(c.selection() =~= a.selection());
}

/// Clicking keeps every entry's checkbox.
pub proof fn law_clicks_keep_the_model_valid(
    before: Manager,
    hit: Option<Hit>,
    after: Manager,
    effect: ClickEffect,
)
    requires
        before.is_valid(),
        clicked(before, hit, after, effect),
    ensures
        after.is_valid(),
{
}

/// A `disabled` list after switching the first `n` entries to what their
/// checkboxes say, in order.
pub open spec fn disabled_by_checks(
    list: Seq<Seq<char>>,
    entries: Seq<AutostartEntry>,
    checked: Seq<bool>,
    n: int,
) -> Seq<Seq<char>>
    decreases n,
{
    if n <= 0 {
        list
    } else {
        config::disabled_after(
            disabled_by_checks(list, entries, checked, n - 1),
            entries[n - 1].id@,
            !checked[n - 1],
        )
    }
}

/// The configuration a model describes: the selected components on, and the
/// entries disabled that are unchecked, on top of the base.
pub open spec fn described_config(m: Manager) -> config::ConfigModel {
    let c = components::selected_config(
        m.registry.components@,
        m.base_config@,
        text::texts(m.selected@),
    );
    config::ConfigModel {
        autostart: config::AutostartModel {
            enabled: c.autostart.enabled,
            disabled: disabled_by_checks(
                c.autostart.disabled,
                m.entries@,
                m.entry_checked@,
                m.entries@.len() as int,
            ),
        },
        ..c
    }
}

/// Build the config the current selection describes: component toggles plus
/// the per-entry startup opt-outs, on top of the last-loaded base.
pub fn build_selected_config(m: &Manager) -> (r: Config)
    requires
        m.is_valid(),
    ensures
        r@ == described_config(*m),
{
    let mut config = m.registry.apply(&m.base_config, &m.selected);
    let ghost base = config@;
    let mut i: usize = 0;
    while i < m.entries.len()
        invariant
            m.is_valid(),
            i <= m.entries@.len(),
            config@ == (config::ConfigModel {
                autostart: config::AutostartModel {
                    enabled: base.autostart.enabled,
                    disabled: disabled_by_checks(
                        base.autostart.disabled,
                        m.entries@,
                        m.entry_checked@,
                        i as int,
                    ),
                },
                ..base
            }),
        decreases m.entries@.len() - i,
    {
        config.autostart.set_disabled(m.entries[i].id.as_str(), !m.entry_checked[i]);
        i = i + 1;
    }
    config
}

/// Where nothing on a list matches an id, removing the id changes nothing.
proof fn lemma_nothing_to_remove(list: Seq<Seq<char>>, id: Seq<char>)
    requires
        !text::listed_ignoring_case(list, id),
    ensures
        config::without_id(list, id) == list,
    decreases list.len(),
{
    if list.len() > 0 {
        let init = list.drop_last();
        assert(!text::same_ignoring_case(list[list.len() - 1], id));
        assert(!text::listed_ignoring_case(init, id)) by {
            if text::listed_ignoring_case(init, id) {
                let i = choose|i: int|
                    0 <= i < init.len() && text::same_ignoring_case(#[trigger] init[i], id);
                assert(list[i] == init[i]);
            }
        }
        lemma_nothing_to_remove(init, id);
        assert(init.push(list.last()) =~= list);
    } else {
        assert(config::without_id(list, id) =~= list);
    }
}

proof fn lemma_checks_that_match(
    list: Seq<Seq<char>>,
    entries: Seq<AutostartEntry>,
    checked: Seq<bool>,
    n: int,
)
    requires
        checks_match(checked, entries, list),
        0 <= n <= entries.len(),
    ensures
        disabled_by_checks(list, entries, checked, n) == list,
    decreases n,
{
    if n > 0 {
        lemma_checks_that_match(list, entries, checked, n - 1);
        if checked[n - 1] {
            lemma_nothing_to_remove(list, entries[n - 1].id@);
        }
    }
}

/// A model that nothing was changed in describes the configuration it was built
/// from.
pub proof fn law_untouched_models_describe_their_config(m: Manager)
    requires
        m.registry.components@ == components::all_components(),
        text::texts(m.selected@) == components::ids_on(
            components::all_components(),
            m.base_config@,
        ),
        checks_match(m.entry_checked@, m.entries@, m.base_config@.autostart.disabled),
    ensures
        described_config(m) == m.base_config@,
{
    components::law_installed_ids_round_trip(m.base_config@);
    lemma_checks_that_match(
        m.base_config@.autostart.disabled,
        m.entries@,
        m.entry_checked@,
        m.entries@.len() as int,
    );
}

proof fn lemma_last_check_wins(
    list: Seq<Seq<char>>,
    entries: Seq<AutostartEntry>,
    checked: Seq<bool>,
    n: int,
    i: int,
)
    requires
        0 <= i < n <= entries.len(),
        checked.len() == entries.len(),
        forall|j: int|
            i < j < n ==> !text::same_ignoring_case(entries[i].id@, #[trigger] entries[j].id@),
    ensures
        text::listed_ignoring_case(
            disabled_by_checks(list, entries, checked, n),
            entries[i].id@,
        ) == !checked[i],
    decreases n,
{
    let rest = disabled_by_checks(list, entries, checked, n - 1);
    config::law_switching_one_entry_leaves_the_others(
        rest,
        entries[n - 1].id@,
        !checked[n - 1],
        entries[i].id@,
    );
    if i < n - 1 {
        lemma_last_check_wins(list, entries, checked, n - 1, i);
    }
}

/// In the described configuration an entry is disabled exactly where its box is
/// unchecked, if no later entry has the same id; the components that are on are
/// the selected ones; and nothing else differs from the base.
pub proof fn law_the_described_config_is_what_is_checked(m: Manager, i: int)
    requires
        m.is_valid(),
        m.registry.components@ == components::all_components(),
        0 <= i < m.entries@.len(),
        forall|j: int|
            i < j < m.entries@.len() ==> !text::same_ignoring_case(
                m.entries@[i].id@,
                #[trigger] m.entries@[j].id@,
            ),
    ensures
        ({
            let c = described_config(m);
            let on = text::texts(m.selected@);
            &&& text::listed_ignoring_case(c.autostart.disabled, m.entries@[i].id@)
                == !m.entry_checked@[i]
            &&& c.taskbar == config::TaskbarModel {
                enabled: on.contains("taskbar"@),
                ..m.base_config@.taskbar
            }
            &&& c.wallpaper == config::WallpaperModel {
                enabled: on.contains("wallpaper"@),
                ..m.base_config@.wallpaper
            }
            &&& c.autostart.enabled == on.contains("autostart"@)
        }),
{
    components::law_apply_reflects_the_selection(m.base_config@, text::texts(m.selected@));
    let c = components::selected_config(
        m.registry.components@,
        m.base_config@,
        text::texts(m.selected@),
    );
    lemma_last_check_wins(
        c.autostart.disabled,
        m.entries@,
        m.entry_checked@,
        m.entries@.len() as int,
        i,
    );
}

/// A notch of the wheel scrolls by three rows of 52 at the window's DPI, and any
/// number of notches by as many times that.
pub proof fn law_the_wheel_scrolls_by_three_rows(dpi: u32, notches: int)
    requires
        dpi <= 9_600,
    ensures
        wheel_step(dpi, 120 * notches) == 3 * notches * ((52 * dpi + 48) / 96),
{
    let row = view::at_dpi(view::ROW_H as int, dpi);
    assert(row == (52 * dpi + 48) / 96);
    assert(row * 3 * (120 * notches) == 120 * (3 * notches * row)) by (nonlinear_arith);
    let d = 3 * notches * row;
    geometry::law_helpers_are_ordinary_arithmetic(120 * d, 120);
    assert(geometry::trunc_div(120 * d, 120) == d);
}

/// The window stands in the middle of the screen, with as much on one side as on
/// the other; a screen with no room for that leaves the place to the system.
pub proof fn law_the_window_is_centred(screen: i32, side: i32)
    requires
        side >= 0,
    ensures
        screen - side < 2 ==> centred(screen as int, side as int) is None,
        screen - side >= 2 ==> match centred(screen as int, side as int) {
            Some(at) => at <= screen - side - at <= at + 1,
            None => false,
        },
        WINDOW_W == 560,
        WINDOW_H == 680,
        MIN_W == 380,
        MIN_H == 320,
{
}

/// What a shell state is shown as.
pub proof fn law_the_shell_state_has_its_line(reason: String)
    ensures
        shell_line(ShellState::Installed { running: true })
            == "WinRestyle is installed and active in this session."@,
        shell_line(ShellState::Installed { running: false })
            == "WinRestyle is installed — active at the next login (or Restyle Now → activate)."@,
        shell_line(ShellState::NotInstalled)
            == "Not installed — the standard Windows shell is active."@,
        shell_line(ShellState::Unknown(reason)) == "Could not read shell state: "@ + reason@,
        MANAGER_WINDOW_CLASS@ == "WinRestyleManager"@,
{
}

/// A message is told by its number, and the mouse's place, the client area's size,
/// the wheel's distance and the DPI are read from its parameters.
pub proof fn law_manager_messages_are_told_by_number(
    msg: u32,
    wparam: usize,
    lparam: isize,
    x: int,
    y: int,
    w: int,
    d: int,
    high: int,
    above: int,
)
    requires
        -0x8000 <= x < 0x8000,
        -0x8000 <= y < 0x8000,
        -0x8000 <= w < 0x8000,
        -0x8000 <= d < 0x8000,
        lparam == high * 4294967296 + (y % 65536) * 65536 + x % 65536,
        wparam == above * 4294967296 + (d % 65536) * 65536 + w % 65536,
    ensures
        manager_event(0x000f, wparam, lparam) == ManagerEvent::Paint,
        manager_event(0x0014, wparam, lparam) == ManagerEvent::Erase,
        manager_event(0x0200, wparam, lparam) == ManagerEvent::MouseMove(x as i32, y as i32),
        manager_event(0x02a3, wparam, lparam) == ManagerEvent::MouseLeave,
        manager_event(0x020a, wparam, lparam) == ManagerEvent::Wheel(d as i32),
        manager_event(0x0202, wparam, lparam) == ManagerEvent::Click(x as i32, y as i32),
        x > 0 && y > 0 ==> manager_event(0x0005, wparam, lparam) == ManagerEvent::Resize(
            x as i32,
            y as i32,
        ),
        x == 0 && y == 0 ==> manager_event(0x0005, wparam, lparam) == ManagerEvent::Resize(1, 1),
        w >= 96 ==> manager_event(0x02e0, wparam, lparam) == ManagerEvent::DpiChanged(w as u32),
        0 <= w < 96 ==> manager_event(0x02e0, wparam, lparam) == ManagerEvent::DpiChanged(96),
        manager_event(0x0024, wparam, lparam) == ManagerEvent::AskMinSize,
        manager_event(0x0002, wparam, lparam) == ManagerEvent::Quit,
        msg != 0x000f && msg != 0x0014 && msg != 0x0200 && msg != 0x02a3 && msg != 0x020a && msg
            != 0x0202 && msg != 0x0005 && msg != 0x02e0 && msg != 0x0024 && msg != 0x0002
            ==> manager_event(msg, wparam, lparam) == ManagerEvent::Other,
{
    message::law_words_are_read_from_their_place(x, y, high);
    message::law_words_are_read_from_their_place(w, d, above);
}

/// A click changes one checkbox and no other, starts an action on a button, and
/// does nothing elsewhere.
pub proof fn law_a_click_changes_one_box(
    before: Manager,
    after: Manager,
    hit: Option<Hit>,
    effect: ClickEffect,
    i: usize,
    j: int,
    id: Seq<char>,
)
    requires
        clicked(before, hit, after, effect),
        i < before.registry.components@.len(),
        i < before.entry_checked@.len(),
        0 <= j < before.entry_checked@.len(),
    ensures
        hit == Some(Hit::Startup(i)) ==> after.entry_checked@.len() == before.entry_checked@.len()
            && after.entry_checked@[j] == (if j == i {
            !before.entry_checked@[j]
        } else {
            before.entry_checked@[j]
        }) && after.selected == before.selected && effect == ClickEffect::Redraw,
        hit == Some(Hit::Component(i)) ==> after.selection().contains(id) == (if id
            == before.registry.components@[i as int].id_text() {
            !before.selection().contains(id)
        } else {
            before.selection().contains(id)
        }) && after.entry_checked == before.entry_checked && effect == ClickEffect::Redraw,
        hit == Some(Hit::RestyleNow) ==> effect == ClickEffect::Apply && after == before,
        hit == Some(Hit::Restore) ==> effect == ClickEffect::Restore && after == before,
        hit is None ==> effect == ClickEffect::Nothing && after == before,
{
}

/// The opt-outs are those of the base, changed entry by entry, in order.
pub proof fn law_boxes_are_applied_one_by_one(
    list: Seq<Seq<char>>,
    entries: Seq<AutostartEntry>,
    checked: Seq<bool>,
    n: int,
)
    requires
        0 <= n < entries.len(),
        entries.len() == checked.len(),
    ensures
        disabled_by_checks(list, entries, checked, 0) == list,
        disabled_by_checks(list, entries, checked, n + 1) == config::disabled_after(
            disabled_by_checks(list, entries, checked, n),
            entries[n].id@,
            !checked[n],
        ),
{
}

/// The messages the window answers by the numbers the system gives them, and what
/// the wheel scrolls by.
pub proof fn law_the_window_knows_the_systems_numbers()
    ensures
        LINE_ACTIVE@ == "WinRestyle is installed and active in this session."@,
        LINE_INSTALLED@
            == "WinRestyle is installed — active at the next login (or Restyle Now → activate)."@,
        LINE_ABSENT@ == "Not installed — the standard Windows shell is active."@,
        LINE_UNKNOWN@ == "Could not read shell state: "@,
        WM_DESTROY == 0x0002,
        WM_SIZE == 0x0005,
        WM_PAINT == 0x000f,
        WM_ERASEBKGND == 0x0014,
        WM_GETMINMAXINFO == 0x0024,
        WM_MOUSEMOVE == 0x0200,
        WM_LBUTTONUP == 0x0202,
        WM_MOUSEWHEEL == 0x020a,
        WM_MOUSELEAVE == 0x02a3,
        WM_DPICHANGED == 0x02e0,
        WHEEL_ROWS == 3,
        WHEEL_DELTA == 120,
{
}

/// What scrolling and pointing leave as it was.
pub proof fn law_the_window_keeps_what_is_not_asked_for(a: Manager, b: Manager)
    ensures
        a.same_but_scroll(&b) ==> a.registry == b.registry && a.base_config == b.base_config
            && a.selected == b.selected && a.entries == b.entries && a.entry_checked
            == b.entry_checked && a.hovered == b.hovered && a.dpi == b.dpi && a.status == b.status
            && a.subtitle == b.subtitle && a.busy == b.busy && a.mouse_tracking
            == b.mouse_tracking,
        a.same_but_hover(&b) ==> a.registry == b.registry && a.base_config == b.base_config
            && a.selected == b.selected && a.entries == b.entries && a.entry_checked
            == b.entry_checked && a.scroll == b.scroll && a.dpi == b.dpi && a.status == b.status
            && a.subtitle == b.subtitle && a.busy == b.busy,
{
}

/// A fresh window checks an entry exactly where the configuration does not switch
/// it off, and lays itself out for its own components and entries.
pub proof fn law_entries_are_checked_unless_switched_off(
    checked: Seq<bool>,
    entries: Seq<AutostartEntry>,
    disabled: Seq<Seq<char>>,
    i: int,
    k: int,
)
    requires
        checks_match(checked, entries, disabled),
        0 <= i < entries.len(),
    ensures
        checked.len() == entries.len(),
        0 <= k < disabled.len() && text::same_ignoring_case(disabled[k], entries[i].id@)
            ==> !checked[i],
        (forall|j: int|
            0 <= j < disabled.len() ==> !text::same_ignoring_case(
                #[trigger] disabled[j],
                entries[i].id@,
            )) ==> checked[i],
{
    assert(checked[i] == !text::listed_ignoring_case(disabled, entries[i].id@));
    if 0 <= k < disabled.len() && text::same_ignoring_case(disabled[k], entries[i].id@) {
        assert(text::listed_ignoring_case(disabled, entries[i].id@));
    }
}

} // verus!
