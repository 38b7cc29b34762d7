//! The start-menu popup: one window, reused across opens. Unlike the bars it
//! takes activation, so the keyboard drives it and losing activation dismisses
//! it.
use vstd::prelude::*;

use crate::geometry;
use crate::message;
use crate::taskbar::actions::{self, ActionKind, MenuAction};
use crate::taskbar::apps::{self, AppEntry};
use crate::taskbar::content::{self, MenuEntry};
use crate::taskbar::layout::{self, BarRect};
use crate::taskbar::startmenu::{self, menu_layout, MenuLayout, MenuState};
use crate::text;

verus! {

/// Window class of the start-menu popup.
pub const MENU_WINDOW_CLASS: &'static str = "WinRestyleStartMenu";

/// A Start click arriving this soon (in milliseconds) after the menu was
/// dismissed is the click that dismissed it: it closes, and does not reopen.
pub const REOPEN_DEBOUNCE_MS: u64 = 300;

/// Whether a menu of that size can be laid out, whatever it lists.
pub open spec fn size_fits(w: int, h: int, dpi: u32) -> bool {
    let pad = layout::at_dpi(startmenu::PAD as int, dpi);
    &&& geometry::is_i32(w - 2 * pad)
    &&& geometry::is_i32(pad + layout::extent(startmenu::SEARCH_H as int, dpi))
    &&& geometry::is_i32(startmenu::rows_top(dpi))
    &&& geometry::is_i32(startmenu::rows_bottom(h, dpi))
    &&& startmenu::rows_bottom(h, dpi) > startmenu::rows_top(dpi) ==> geometry::is_i32(
        startmenu::track_height(h, dpi) + layout::at_dpi(startmenu::ROW_GAP as int, dpi),
    )
}

/// The longest list of apps a menu shows.
pub const MAX_APPS: usize = 0x7fff_ff00;

/// The longest list of actions a menu shows.
pub const MAX_ACTIONS: usize = 100;

/// The most entries a menu lists.
pub const MAX_ENTRIES: usize = 0x7fff_ffff;

/// A menu that can be laid out for one list can be for any list a menu shows.
pub proof fn lemma_any_list_fits(w: int, h: int, dpi: u32, count: int, scroll: int)
    requires
        size_fits(w, h, dpi),
        0 <= count <= MAX_ENTRIES,
        0 <= scroll,
    ensures
        startmenu::menu_layout_fits(w, h, dpi, count, scroll),
        0 <= startmenu::rows_that_fit(h, dpi) <= i32::MAX,
{
    startmenu::lemma_rows_that_fit(h, dpi);
    let fit = startmenu::rows_that_fit(h, dpi);
    if startmenu::rows_overflow(fit, count) {
        startmenu::lemma_thumb_in_track(h, dpi, fit, count, scroll);
        let travel = startmenu::track_height(h, dpi) - startmenu::thumb_height(
            h,
            dpi,
            fit,
            count,
        );
        let pos = startmenu::scroll_in_force(fit, count, scroll);
        assert(travel * pos <= 0x7fff_ffff * 0x7fff_ffff) by (nonlinear_arith)
            requires
                0 <= travel <= 0x7fff_ffff,
                0 <= pos <= 0x7fff_ffff,
        ;
    }
}

/// A menu of up to a million pixels a side, at up to a hundred times the nominal
/// DPI, can be laid out.
pub proof fn law_ordinary_menus_fit(w: int, h: int, dpi: u32)
    requires
        -1_000_000 <= w <= 1_000_000,
        -1_000_000 <= h <= 1_000_000,
        dpi <= 9_600,
    ensures
        size_fits(w, h, dpi),
{
}

/// What the menu shows, and where the keyboard and the mouse are in it.
pub struct StartMenu {
    /// The bar's DPI at the last open.
    pub dpi: u32,
    /// Window size in physical pixels (the layout's coordinate space).
    pub size: (i32, i32),
    /// Geometry for the current content and scroll.
    pub layout: MenuLayout,
    /// Filter text, selection, scroll.
    pub state: MenuState,
    /// The scanned app list (scanned again on every open).
    pub apps: Vec<AppEntry>,
    /// The built-in actions.
    pub actions: Vec<MenuAction>,
    /// What the filter leaves of both, in groups under headers.
    pub content: Vec<MenuEntry>,
    /// Content index under the mouse; never a header's.
    pub hovered: Option<usize>,
    /// Whether a request to be told of the mouse leaving is armed.
    pub mouse_tracking: bool,
    pub visible: bool,
    /// Tick (in milliseconds) of the last dismissal.
    pub dismissed_at: u64,
}

/// Whether an index is that of an entry that can be chosen.
pub open spec fn can_choose(list: Seq<MenuEntry>, at: usize) -> bool {
    at < list.len() && list[at as int].is_item()
}

/// The first entry that can be chosen, or 0 where there is none.
pub open spec fn first_choice(list: Seq<MenuEntry>) -> usize {
    match startmenu::next_down(content::selectable_of(list), 0) {
        Some(i) => i,
        None => 0,
    }
}

impl StartMenu {
    /// The content is what the filter leaves, the layout is the one of that
    /// content, the scroll offset is within it, and what is selected or hovered
    /// is no header.
    pub open spec fn is_valid(&self) -> bool {
        &&& self.apps@.len() <= MAX_APPS
        &&& self.actions@.len() <= MAX_ACTIONS
        &&& self.content@ == content::content_of(
            self.actions@,
            apps::names(self.apps@),
            self.state.filter@,
        )
        &&& self.state.scroll <= self.content@.len()
        &&& if self.content@.len() == 0 {
            self.state.selected == 0
        } else {
            can_choose(self.content@, self.state.selected)
        }
        &&& self.hovered matches Some(p) ==> can_choose(self.content@, p)
        &&& size_fits(self.size.0 as int, self.size.1 as int, self.dpi)
        &&& self.is_laid_out()
    }

    /// Whether the layout is the one of the content.
    pub open spec fn is_laid_out(&self) -> bool {
        self.layout.is_layout_of(
            self.size.0 as int,
            self.size.1 as int,
            self.dpi,
            self.content@.len() as int,
            self.state.scroll as int,
        )
    }
}

/// What every content of a menu has: no more entries than a menu lists, each
/// index in its list, and a first entry to choose unless it is empty.
pub proof fn lemma_content_in_bounds(
    list: Seq<MenuAction>,
    names: Seq<Seq<char>>,
    filter: Seq<char>,
)
    requires
        list.len() <= MAX_ACTIONS,
        names.len() <= MAX_APPS,
    ensures
        content::content_of(list, names, filter).len() <= MAX_ENTRIES,
        forall|i: int|
            0 <= i < content::content_of(list, names, filter).len() ==> match (
            #[trigger] content::content_of(list, names, filter)[i]) {
                MenuEntry::Header(_) => true,
                MenuEntry::Action(p) => p < list.len(),
                MenuEntry::App(p) => p < names.len(),
            },
        content::content_of(list, names, filter).len() > 0 ==> can_choose(
            content::content_of(list, names, filter),
            first_choice(content::content_of(list, names, filter)),
        ),
{
    let all = content::content_of(list, names, filter);
    content::lemma_content(list, names, filter);
    content::lemma_listed(actions::labels(list), filter);
    content::lemma_listed(names, filter);
    assert(actions::labels(list).len() == list.len());
    assert forall|i: int| 0 <= i < all.len() implies match (#[trigger] all[i]) {
        MenuEntry::Header(_) => true,
        MenuEntry::Action(p) => p < list.len(),
        MenuEntry::App(p) => p < names.len(),
    } by {
        match all[i] {
            MenuEntry::Header(_) => {},
            MenuEntry::Action(p) => {
                assert(all.contains(MenuEntry::Action(p)));
                assert(content::listed(actions::labels(list), filter).contains(p));
            },
            MenuEntry::App(p) => {
                assert(all.contains(MenuEntry::App(p)));
                assert(content::listed(names, filter).contains(p));
            },
        }
    }
    if all.len() > 0 {
        let choices = content::selectable_of(all);
        startmenu::lemma_next_down(choices, 0);
        assert(all[0] is Header);
        assert(choices[1]);
    }
}

/// What a Start click does.
#[derive(Debug, Clone, Copy, PartialEq, Eq, Structural)]
pub enum MenuToggle {
    Hide,
    Open,
    Nothing,
}

/// What a Start click at tick `now` does.
pub open spec fn toggle_of(menu: Option<StartMenu>, now: u64) -> MenuToggle {
    match menu {
        None => MenuToggle::Open,
        Some(m) => if m.visible {
            MenuToggle::Hide
        } else if now - m.dismissed_at < REOPEN_DEBOUNCE_MS {
            MenuToggle::Nothing
        } else {
            MenuToggle::Open
        },
    }
}

/// What a Start click at tick `now` does: close an open menu, open a closed
/// one, and nothing where this is the click whose activation change just
/// dismissed it.
pub fn toggle_menu(menu: &Option<StartMenu>, now: u64) -> (r: MenuToggle)
    ensures
        r == toggle_of(*menu, now),
{
    match menu {
        None => MenuToggle::Open,
        Some(m) => if m.visible {
            MenuToggle::Hide
        } else if now < m.dismissed_at || now - m.dismissed_at < REOPEN_DEBOUNCE_MS {
            MenuToggle::Nothing
        } else {
            MenuToggle::Open
        },
    }
}

/// What a key or a click in the menu asks for.
#[derive(Debug, PartialEq, Eq)]
pub enum MenuTodo {
    Nothing,
    Redraw,
    Hide,
    /// Hide the menu and launch this shortcut.
    Launch(String),
    /// Hide the menu and run this action.
    Run(ActionKind),
}

impl StartMenu {
    /// A menu window that lists nothing yet.
    pub fn new(w: i32, h: i32, dpi: u32) -> (r: Self)
        requires
            size_fits(w as int, h as int, dpi),
        ensures
            r.is_valid(),
            r.dpi == dpi,
            r.size == (w, h),
            r.apps@.len() == 0,
            r.actions@.len() == 0,
            r.state.filter@.len() == 0,
            r.state.selected == 0,
            r.state.scroll == 0,
            r.hovered is None,
            !r.mouse_tracking,
            !r.visible,
            r.dismissed_at == 0,
    {
        proof {
            lemma_any_list_fits(w as int, h as int, dpi, 0, 0);
        }
        let r = StartMenu {
            dpi,
            size: (w, h),
            layout: menu_layout(w, h, dpi, 0, 0),
            state: MenuState::default(),
            apps: Vec::new(),
            actions: Vec::new(),
            content: Vec::new(),
            hovered: None,
            mouse_tracking: false,
            visible: false,
            dismissed_at: 0,
        };
        proof {
            let names = apps::names(r.apps@);
            content::lemma_nothing_to_list(r.actions@, names, r.state.filter@);
            assert(r.content@ =~= content::content_of(r.actions@, names, r.state.filter@));
        }
        r
    }

    /// Open the menu over a fresh list of apps and the actions of this build, at
    /// the size and DPI it has this time: nothing typed, the first entry that
    /// can be chosen selected. Returns whether the size changed.
    pub fn open_menu(&mut self, dev: bool, apps: Vec<AppEntry>, w: i32, h: i32, dpi: u32) -> (r:
        bool)
        requires
            apps@.len() <= MAX_APPS,
            size_fits(w as int, h as int, dpi),
        ensures
            final(self).is_valid(),
            final(self).apps == apps,
            actions::action_values(final(self).actions@) == actions::shown_actions(dev),
            final(self).dpi == dpi,
            final(self).size == (w, h),
            final(self).state.filter@.len() == 0,
            final(self).state.selected == first_choice(final(self).content@),
            final(self).state.scroll == 0,
            final(self).hovered is None,
            final(self).visible,
            final(self).mouse_tracking == old(self).mouse_tracking,
            final(self).dismissed_at == old(self).dismissed_at,
            r == (old(self).size != (w, h)),
    {
        let resized: bool = self.size.0 != w || self.size.1 != h;
        self.actions = actions::actions(dev);
        proof {
            assert(actions::action_values(self.actions@).len() == self.actions@.len());
        }
        self.apps = apps;
        self.state = MenuState::default();
        self.dpi = dpi;
        self.size = (w, h);
        self.refilter_menu();
        self.visible = true;
        resized
    }

    /// Everything but whether it is shown is as it was in `before`.
    pub open spec fn same_but_shown(&self, before: &StartMenu) -> bool {
        *self == (StartMenu {
            visible: self.visible,
            dismissed_at: self.dismissed_at,
            ..*before
        })
    }

    /// Hide the menu at tick `now`: whether the window is to be hidden. Hiding a
    /// hidden menu does nothing, so being asked again while the window hides is
    /// harmless.
    pub fn hide_menu(&mut self, now: u64) -> (r: bool)
        ensures
            r == old(self).visible,
            final(self).same_but_shown(old(self)),
            !final(self).visible,
            final(self).dismissed_at == if r {
                now
            } else {
                old(self).dismissed_at
            },
    {
        if !self.visible {
            return false;
        }
        self.visible = false;
        self.dismissed_at = now;
        true
    }

    /// The entry at a position of the content, or the selected one.
    pub open spec fn entry_at(&self, position: Option<usize>) -> Option<MenuEntry> {
        let at = match position {
            Some(p) => p,
            None => self.state.selected,
        };
        if at < self.content@.len() {
            Some(self.content@[at as int])
        } else {
            None
        }
    }

    /// What is asked for where an entry is chosen: its shortcut or its action,
    /// and nothing for a header or where there is no entry.
    pub open spec fn chooses(&self, entry: Option<MenuEntry>, todo: MenuTodo) -> bool {
        match entry {
            Some(MenuEntry::App(i)) => if i < self.apps@.len() {
                todo matches MenuTodo::Launch(s) && s@ == self.apps@[i as int].path@
            } else {
                todo is Nothing
            },
            Some(MenuEntry::Action(i)) => if i < self.actions@.len() {
                todo == MenuTodo::Run(self.actions@[i as int].kind)
            } else {
                todo is Nothing
            },
            _ => todo is Nothing,
        }
    }

    /// What choosing a position of the content (`None` is the selected one) asks
    /// for.
    pub fn launch_from_menu(&self, position: Option<usize>) -> (r: MenuTodo)
        ensures
            self.chooses(self.entry_at(position), r),
    {
        let at: usize = match position {
            Some(p) => p,
            None => self.state.selected,
        };
        if at >= self.content.len() {
            return MenuTodo::Nothing;
        }
        match self.content[at] {
            MenuEntry::App(i) => if i < self.apps.len() {
                MenuTodo::Launch(self.apps[i].path.clone())
            } else {
                MenuTodo::Nothing
            },
            MenuEntry::Action(i) => if i < self.actions.len() {
                MenuTodo::Run(self.actions[i].kind)
            } else {
                MenuTodo::Nothing
            },
            MenuEntry::Header(_) => MenuTodo::Nothing,
        }
    }

    /// Lay the menu out again for the content and the scroll offset it has.
    fn relayout(&mut self)
        requires
            size_fits(old(self).size.0 as int, old(self).size.1 as int, old(self).dpi),
            old(self).content@.len() <= MAX_ENTRIES,
        ensures
            *final(self) == (StartMenu { layout: final(self).layout, ..*old(self) }),
            final(self).is_laid_out(),
    {
        proof {
            lemma_any_list_fits(
                self.size.0 as int,
                self.size.1 as int,
                self.dpi,
                self.content@.len() as int,
                self.state.scroll as int,
            );
        }
        self.layout = menu_layout(
            self.size.0,
            self.size.1,
            self.dpi,
            self.content.len(),
            self.state.scroll,
        );
    }

    /// The content after the filter or what there is to list changed, with the
    /// first entry that can be chosen selected.
    fn refilter_menu(&mut self)
        requires
            old(self).apps@.len() <= MAX_APPS,
            old(self).actions@.len() <= MAX_ACTIONS,
            old(self).state.scroll == 0,
            size_fits(old(self).size.0 as int, old(self).size.1 as int, old(self).dpi),
        ensures
            final(self).is_valid(),
            *final(self) == (StartMenu {
                content: final(self).content,
                layout: final(self).layout,
                state: final(self).state,
                hovered: None,
                ..*old(self)
            }),
            final(self).state.filter == old(self).state.filter,
            final(self).state.scroll == 0,
            final(self).state.selected == first_choice(final(self).content@),
    {
        self.content = content::build_content(
            &self.actions,
            &self.apps,
            self.state.filter.as_str(),
        );
        self.hovered = None;
        proof {
            lemma_content_in_bounds(self.actions@, apps::names(self.apps@), self.state.filter@);
        }
        let choices = content::selectable(&self.content);
        self.state.selected = startmenu::first_selectable(choices.as_slice());
        self.relayout();
    }
}

/// Virtual key codes.
pub const VK_RETURN: u16 = 0x0d;
pub const VK_ESCAPE: u16 = 0x1b;
pub const VK_UP: u16 = 0x26;
pub const VK_DOWN: u16 = 0x28;

impl StartMenu {
    /// Everything but the selection and the viewport is as it was in `before`.
    pub open spec fn same_but_selection(&self, before: &StartMenu) -> bool {
        &&& *self == (StartMenu {
            state: self.state,
            layout: self.layout,
            hovered: self.hovered,
            ..*before
        })
        &&& self.state.filter == before.state.filter
    }

    /// Move the selection one entry: whether anything changed.
    fn move_selection(&mut self, delta: i32) -> (r: bool)
        requires
            old(self).is_valid(),
        ensures
            final(self).is_valid(),
            final(self).same_but_selection(old(self)),
            final(self).hovered == old(self).hovered,
            final(self).state.selected == startmenu::selection_after(
                old(self).state.selected,
                delta as int,
                content::selectable_of(old(self).content@),
            ),
            final(self).state.scroll == startmenu::viewport_after(
                final(self).state.selected as int,
                old(self).state.scroll as int,
                old(self).layout.fit as int,
                content::selectable_of(old(self).content@),
            ),
            r == (final(self).state.selected != old(self).state.selected
                || final(self).state.scroll != old(self).state.scroll),
    {
        proof {
            lemma_content_in_bounds(self.actions@, apps::names(self.apps@), self.state.filter@);
            lemma_any_list_fits(
                self.size.0 as int,
                self.size.1 as int,
                self.dpi,
                self.content@.len() as int,
                self.state.scroll as int,
            );
        }
        let choices = content::selectable(&self.content);
        let selected: usize = self.state.selected;
        let scroll: usize = self.state.scroll;
        proof {
            if choices@.len() > 0 {
                startmenu::law_selection_skips_only_headers(selected, delta as int, choices@);
            }
        }
        self.state.move_selection_skipping(delta, choices.as_slice(), self.layout.fit);
        if self.state.selected == selected && self.state.scroll == scroll {
            return false;
        }
        self.relayout();
        true
    }

    /// A key went down: Escape closes, Enter chooses the selection, and the
    /// arrows move it past headers.
    pub fn on_menu_key(&mut self, key: u16) -> (r: MenuTodo)
        requires
            old(self).is_valid(),
        ensures
            final(self).is_valid(),
            key == VK_ESCAPE ==> r is Hide && *final(self) == *old(self),
            key == VK_RETURN ==> old(self).chooses(old(self).entry_at(None), r)
                && *final(self) == *old(self),
            key == VK_UP || key == VK_DOWN ==> {
                let all = content::selectable_of(old(self).content@);
                &&& final(self).same_but_selection(old(self))
                &&& final(self).hovered == old(self).hovered
                &&& final(self).state.selected == startmenu::selection_after(
                    old(self).state.selected,
                    if key == VK_UP {
                        -1
                    } else {
                        1
                    },
                    all,
                )
                &&& final(self).state.scroll == startmenu::viewport_after(
                    final(self).state.selected as int,
                    old(self).state.scroll as int,
                    old(self).layout.fit as int,
                    all,
                )
                &&& r is Redraw || r is Nothing
                &&& r is Redraw <==> final(self).state.selected != old(self).state.selected
                    || final(self).state.scroll != old(self).state.scroll
            },
            key != VK_ESCAPE && key != VK_RETURN && key != VK_UP && key != VK_DOWN ==> r is Nothing
                && *final(self) == *old(self),
    {
        if key == VK_ESCAPE {
            return MenuTodo::Hide;
        }
        if key == VK_RETURN {
            return self.launch_from_menu(None);
        }
        let delta: i32 = if key == VK_UP {
            -1
        } else if key == VK_DOWN {
            1
        } else {
            return MenuTodo::Nothing;
        };
        if self.move_selection(delta) {
            MenuTodo::Redraw
        } else {
            MenuTodo::Nothing
        }
    }
}

/// The rows one wheel notch scrolls by.
pub const WHEEL_ROWS: i32 = 3;

/// The distance of one wheel notch.
pub const WHEEL_DELTA: i32 = 120;

/// The rows a wheel distance scrolls by: away from the user is up.
pub open spec fn wheel_rows(delta: int) -> int {
    geometry::trunc_div(-delta, WHEEL_DELTA as int) * WHEEL_ROWS
}

impl StartMenu {
    /// A character was typed: whether to redraw. A code that is no character
    /// (half of a surrogate pair) is dropped.
    pub fn on_menu_char(&mut self, code: u32) -> (r: bool)
        requires
            old(self).is_valid(),
        ensures
            final(self).is_valid(),
            *final(self) == (StartMenu {
                state: final(self).state,
                content: final(self).content,
                layout: final(self).layout,
                hovered: final(self).hovered,
                ..*old(self)
            }),
            final(self).state.filter@ == if text::is_scalar(code as int) {
                startmenu::filter_after(old(self).state.filter@, code as char)
            } else {
                old(self).state.filter@
            },
            r == (final(self).state.filter@ != old(self).state.filter@),
            r ==> final(self).state.selected == first_choice(final(self).content@)
                && final(self).state.scroll == 0 && final(self).hovered is None,
            !r ==> *final(self) == *old(self),
    {
        let c: char = match char::from_u32(code) {
            Some(c) => c,
            None => {
                return false;
            },
        };
        proof {
            vstd::utf8::char_u32_cast(c, code);
        }
        if !self.state.on_char(c) {
            return false;
        }
        self.refilter_menu();
        true
    }

    /// The wheel turned: whether to redraw. The selection stays; the row under
    /// the resting mouse changed, so nothing is hovered until it moves.
    pub fn on_menu_wheel(&mut self, delta: i32) -> (r: bool)
        requires
            old(self).is_valid(),
            delta > i32::MIN,
        ensures
            final(self).is_valid(),
            final(self).same_but_selection(old(self)),
            final(self).state.selected == old(self).state.selected,
            wheel_rows(delta as int) == 0 ==> final(self).state.scroll == old(self).state.scroll,
            wheel_rows(delta as int) != 0 ==> final(self).state.scroll == geometry::max_of(
                geometry::min_of(
                    old(self).state.scroll + wheel_rows(delta as int),
                    geometry::max_of(old(self).content@.len() - old(self).layout.fit, 0),
                ),
                0,
            ),
            r == (final(self).state.scroll != old(self).state.scroll),
            r ==> final(self).hovered is None,
            !r ==> final(self).hovered == old(self).hovered,
    {
        let rows: i32 = -delta / WHEEL_DELTA * WHEEL_ROWS;
        if rows == 0 {
            return false;
        }
        proof {
            lemma_content_in_bounds(self.actions@, apps::names(self.apps@), self.state.filter@);
        }
        let before: usize = self.state.scroll;
        self.state.on_wheel(rows, self.content.len(), self.layout.fit);
        if self.state.scroll == before {
            return false;
        }
        self.relayout();
        self.hovered = None;
        true
    }

    /// Everything but what the mouse is over is as it was in `before`.
    pub open spec fn same_but_hover(&self, before: &StartMenu) -> bool {
        *self == (StartMenu {
            hovered: self.hovered,
            mouse_tracking: self.mouse_tracking,
            ..*before
        })
    }

    /// The entry under a point that can be chosen.
    pub open spec fn choice_under(&self, x: int, y: int) -> Option<usize> {
        match self.layout.item_at(x, y) {
            Some(p) => if can_choose(self.content@, p) {
                Some(p)
            } else {
                None
            },
            None => None,
        }
    }

    /// The entry under a point that can be chosen: a header is not.
    fn hit_entry(&self, x: i32, y: i32) -> (r: Option<usize>)
        ensures
            r == self.choice_under(x as int, y as int),
    {
        match self.layout.hit_row(x, y) {
            Some(p) => if p < self.content.len() && !matches!(
                self.content[p],
                MenuEntry::Header(_)
            ) {
                Some(p)
            } else {
                None
            },
            None => None,
        }
    }

    /// The mouse is at a point: whether to redraw, and whether to ask to be told
    /// when it leaves.
    pub fn on_menu_mouse_move(&mut self, x: i32, y: i32) -> (r: (bool, bool))
        ensures
            final(self).same_but_hover(old(self)),
            final(self).hovered == old(self).choice_under(x as int, y as int),
            final(self).mouse_tracking,
            r.0 == (final(self).hovered != old(self).hovered),
            r.1 == !old(self).mouse_tracking,
    {
        let hovered = self.hit_entry(x, y);
        let changed: bool = hovered != self.hovered;
        let arm: bool = !self.mouse_tracking;
        self.hovered = hovered;
        self.mouse_tracking = true;
        (changed, arm)
    }

    /// The system would not tell when the mouse leaves: ask again on the next
    /// move.
    pub fn tracking_failed(&mut self)
        ensures
            final(self).same_but_hover(old(self)),
            final(self).hovered == old(self).hovered,
            !final(self).mouse_tracking,
    {
        self.mouse_tracking = false;
    }

    /// The mouse left the menu: whether to redraw.
    pub fn on_menu_mouse_leave(&mut self) -> (r: bool)
        ensures
            final(self).same_but_hover(old(self)),
            final(self).hovered is None,
            !final(self).mouse_tracking,
            r == (old(self).hovered is Some),
    {
        let had: bool = self.hovered.is_some();
        self.hovered = None;
        self.mouse_tracking = false;
        had
    }

    /// A click at a point: choose the entry whose row is there, if one is.
    pub fn on_menu_click(&self, x: i32, y: i32) -> (r: MenuTodo)
        ensures
            self.chooses(
                match self.choice_under(x as int, y as int) {
                    Some(p) => self.entry_at(Some(p)),
                    None => None,
                },
                r,
            ),
    {
        match self.hit_entry(x, y) {
            Some(p) => self.launch_from_menu(Some(p)),
            None => MenuTodo::Nothing,
        }
    }
}

/// Window messages the menu answers.
pub const WM_DESTROY: u32 = 0x0002;
pub const WM_ACTIVATE: u32 = 0x0006;
pub const WM_KEYDOWN: u32 = 0x0100;
pub const WM_CHAR: u32 = 0x0102;
pub const WM_MOUSEMOVE: u32 = 0x0200;
pub const WM_LBUTTONDOWN: u32 = 0x0201;
pub const WM_MOUSEWHEEL: u32 = 0x020a;
pub const WM_MOUSELEAVE: u32 = 0x02a3;

/// What a message asks of the menu window.
#[derive(Debug, Clone, Copy, PartialEq, Eq, Structural)]
pub enum MenuEvent {
    /// The menu lost activation: hide it, then let the default procedure go on.
    Dismiss,
    Key(u16),
    /// The code of a typed UTF-16 unit.
    Typed(u32),
    Click(i32, i32),
    MouseMove(i32, i32),
    MouseLeave,
    Wheel(i32),
    /// Taken down on purpose: nothing to do.
    Destroyed,
    /// Left to the default procedure, which also gives an activated window the
    /// keyboard.
    Other,
}

/// What a message asks for.
pub open spec fn menu_event(msg: u32, wparam: usize, lparam: isize) -> MenuEvent {
    let x = message::signed(message::low(lparam as int)) as i32;
    let y = message::signed(message::high(lparam as int)) as i32;
    if msg == WM_ACTIVATE && message::low(wparam as int) == 0 {
        MenuEvent::Dismiss
    } else if msg == WM_KEYDOWN {
        MenuEvent::Key(message::low(wparam as int) as u16)
    } else if msg == WM_CHAR {
        MenuEvent::Typed((wparam as int % 0x1_0000_0000) as u32)
    } else if msg == WM_LBUTTONDOWN {
        MenuEvent::Click(x, y)
    } else if msg == WM_MOUSEMOVE {
        MenuEvent::MouseMove(x, y)
    } else if msg == WM_MOUSELEAVE {
        MenuEvent::MouseLeave
    } else if msg == WM_MOUSEWHEEL {
        MenuEvent::Wheel(message::signed(message::high(wparam as int)) as i32)
    } else if msg == WM_DESTROY {
        MenuEvent::Destroyed
    } else {
        MenuEvent::Other
    }
}

/// The low 32 bits of a parameter.
fn low_half(wparam: usize) -> (r: u32)
    ensures
        r == wparam as int % 0x1_0000_0000,
{
    let w: u64 = wparam as u64;
    (w % 0x1_0000_0000) as u32
}

/// Sort a message to the menu and read its parameters.
pub fn menu_wndproc(msg: u32, wparam: usize, lparam: isize) -> (r: MenuEvent)
    ensures
        r == menu_event(msg, wparam, lparam),
{
    match msg {
        WM_ACTIVATE => if message::word_of(wparam) == 0 {
            MenuEvent::Dismiss
        } else {
            MenuEvent::Other
        },
        WM_KEYDOWN => MenuEvent::Key(message::word_of(wparam) as u16),
        WM_CHAR => MenuEvent::Typed(low_half(wparam)),
        WM_LBUTTONDOWN => MenuEvent::Click(message::mouse_x(lparam), message::mouse_y(lparam)),
        WM_MOUSEMOVE => MenuEvent::MouseMove(message::mouse_x(lparam), message::mouse_y(lparam)),
        WM_MOUSELEAVE => MenuEvent::MouseLeave,
        WM_MOUSEWHEEL => MenuEvent::Wheel(message::wheel_delta(wparam)),
        WM_DESTROY => MenuEvent::Destroyed,
        _ => MenuEvent::Other,
    }
}

/// What a painted row stands for.
#[derive(Debug, PartialEq, Eq)]
pub enum RowKind {
    Header,
    Action(ActionKind),
    /// The shortcut whose icon the row shows.
    App(String),
}

/// One row as it is painted.
#[derive(Debug, PartialEq, Eq)]
pub struct MenuRow {
    pub rect: BarRect,
    pub kind: RowKind,
    pub name: String,
    pub selected: bool,
    pub hovered: bool,
}

/// Everything one paint of the menu needs beside the theme.
#[derive(Debug, PartialEq, Eq)]
pub struct MenuFrame {
    pub dpi: u32,
    pub search: BarRect,
    pub filter: String,
    pub rows: Vec<MenuRow>,
    pub scrollbar: Option<BarRect>,
    /// Something was typed that matches nothing.
    pub no_matches: bool,
}

/// Whether a row of that kind and name stands for an entry of a menu.
pub open spec fn shows_entry(kind: RowKind, name: Seq<char>, m: StartMenu, e: MenuEntry) -> bool {
    match e {
        MenuEntry::Header(g) => kind is Header && name == g.label_text(),
        MenuEntry::Action(i) => kind == RowKind::Action(m.actions@[i as int].kind) && name
            == m.actions@[i as int].label@,
        MenuEntry::App(i) => {
            &&& kind matches RowKind::App(path)
            &&& path@ == m.apps@[i as int].path@
            &&& name == m.apps@[i as int].name@
        },
    }
}

/// Whether `row` is row `i` of a menu's layout.
pub open spec fn is_menu_row(row: MenuRow, m: StartMenu, i: int) -> bool {
    let position = m.layout.rows@[i].0;
    &&& row.rect == m.layout.rows@[i].1
    &&& shows_entry(row.kind, row.name@, m, m.content@[position as int])
    &&& row.selected == (position == m.state.selected)
    &&& row.hovered == (m.hovered == Some(position))
}

/// Whether `f` is what a menu looks like.
pub open spec fn is_menu_frame(f: MenuFrame, m: StartMenu) -> bool {
    &&& f.dpi == m.dpi
    &&& f.search == m.layout.search
    &&& f.filter@ == m.state.filter@
    &&& f.rows@.len() == m.layout.rows@.len()
    &&& forall|i: int|
        0 <= i < f.rows@.len() ==> is_menu_row(#[trigger] f.rows@[i], m, i)
    &&& f.scrollbar == m.layout.scrollbar
    &&& f.no_matches == (m.content@.len() == 0 && m.state.filter@.len() > 0)
}

/// What there is to paint of a menu: nothing while it is hidden.
pub fn redraw_menu(m: &StartMenu) -> (r: Option<MenuFrame>)
    requires
        m.is_valid(),
    ensures
        r is Some <==> m.visible,
        r matches Some(f) ==> is_menu_frame(f, *m),
{
    if !m.visible {
        return None;
    }
    proof {
        lemma_content_in_bounds(m.actions@, apps::names(m.apps@), m.state.filter@);
    }
    let mut rows: Vec<MenuRow> = Vec::new();
    let mut i: usize = 0;
    while i < m.layout.rows.len()
        invariant
            m.is_valid(),
            forall|k: int|
                0 <= k < m.content@.len() ==> match (#[trigger] m.content@[k]) {
                    MenuEntry::Header(_) => true,
                    MenuEntry::Action(p) => p < m.actions@.len(),
                    MenuEntry::App(p) => p < m.apps@.len(),
                },
            i <= m.layout.rows@.len(),
            rows@.len() == i,
            forall|k: int| 0 <= k < i ==> is_menu_row(#[trigger] rows@[k], *m, k),
        decreases m.layout.rows@.len() - i,
    {
        let (position, rect) = m.layout.rows[i];
        proof {
            assert(position == m.layout.rows@[i as int].0);
        }
        let (kind, name) = match m.content[position] {
            MenuEntry::Header(g) => (RowKind::Header, g.label().to_owned()),
            MenuEntry::Action(p) => (
                RowKind::Action(m.actions[p].kind),
                m.actions[p].label.to_owned(),
            ),
            MenuEntry::App(p) => (
                RowKind::App(m.apps[p].path.clone()),
                m.apps[p].name.clone(),
            ),
        };
        rows.push(
            MenuRow {
                rect,
                kind,
                name,
                selected: position == m.state.selected,
                hovered: m.hovered == Some(position),
            },
        );
        i = i + 1;
    }
    Some(
        MenuFrame {
            dpi: m.dpi,
            search: m.layout.search,
            filter: m.state.filter.clone(),
            rows,
            scrollbar: m.layout.scrollbar,
            no_matches: m.content.len() == 0 && !m.state.filter.as_str().is_empty(),
        },
    )
}

/// What is selected or under the mouse in a menu is never a header, whatever was
/// typed, and something is selected unless nothing is listed.
pub proof fn law_a_header_is_never_chosen(m: StartMenu)
    requires
        m.is_valid(),
    ensures
        m.content@.len() > 0 <==> m.entry_at(None) is Some,
        m.entry_at(None) matches Some(e) ==> e.is_item(),
        m.hovered matches Some(p) ==> (m.entry_at(Some(p)) matches Some(e) && e.is_item()),
{
}

/// A menu that was open and is hidden at one tick stays closed on a click
/// within the debounce time after it, and opens on one that comes later.
pub proof fn law_the_dismissing_click_does_not_reopen(
    hidden: StartMenu,
    hidden_at: u64,
    now: u64,
)
    requires
        !hidden.visible,
        hidden.dismissed_at == hidden_at,
        hidden_at <= now,
    ensures
        now < hidden_at + REOPEN_DEBOUNCE_MS ==> toggle_of(Some(hidden), now)
            == MenuToggle::Nothing,
        now >= hidden_at + REOPEN_DEBOUNCE_MS ==> toggle_of(Some(hidden), now)
            == MenuToggle::Open,
{
}

/// The wheel scrolls three rows a notch, up where it turns away from the user; what
/// is less than a notch does not scroll.
pub proof fn law_the_wheel_scrolls_three_rows_a_notch(notches: int, rest: int)
    requires
        0 <= rest < 120,
        0 <= notches,
    ensures
        wheel_rows(120 * notches + rest) == -3 * notches,
        wheel_rows(-(120 * notches + rest)) == 3 * notches,
{
    vstd::arithmetic::div_mod::lemma_fundamental_div_mod_converse(
        120 * notches + rest,
        120,
        notches,
        rest,
    );
}

/// A click on Start closes a menu that is open. It opens one that was never open,
/// and one that was dismissed at least 300 milliseconds ago.
pub proof fn law_start_opens_and_closes_the_menu(menu: Option<StartMenu>, now: u64)
    ensures
        menu is None ==> toggle_of(menu, now) == MenuToggle::Open,
        menu is Some && (menu->0).visible ==> toggle_of(menu, now) == MenuToggle::Hide,
        menu is Some && !(menu->0).visible ==> toggle_of(menu, now) == if now
            >= (menu->0).dismissed_at + 300 {
            MenuToggle::Open
        } else {
            MenuToggle::Nothing
        },
{
}

/// Choosing an app launches its shortcut and choosing an action runs it; choosing
/// a header, or where there is nothing, does nothing. Without a position the
/// selected entry is chosen.
pub proof fn law_choosing_an_entry_starts_it(
    m: StartMenu,
    position: Option<usize>,
    todo: MenuTodo,
    at: usize,
)
    requires
        m.chooses(m.entry_at(position), todo),
        at == match position {
            Some(p) => p,
            None => m.state.selected,
        },
    ensures
        at >= m.content@.len() ==> todo is Nothing,
        at < m.content@.len() ==> match m.content@[at as int] {
            MenuEntry::Header(g) => todo is Nothing,
            MenuEntry::App(i) => i < m.apps@.len() ==> (todo matches MenuTodo::Launch(s) && s@
                == m.apps@[i as int].path@),
            MenuEntry::Action(i) => i < m.actions@.len() ==> (todo matches MenuTodo::Run(k) && k
                == m.actions@[i as int].kind),
        },
{
}

/// A row shows what it stands for, and is marked where it is selected or under the
/// mouse. That nothing matches is said where something was typed and nothing is
/// listed.
pub proof fn law_rows_show_what_they_stand_for(f: MenuFrame, m: StartMenu, i: int)
    requires
        is_menu_frame(f, m),
        0 <= i < f.rows@.len(),
    ensures
        f.rows@.len() == m.layout.rows@.len(),
        f.rows@[i].rect == m.layout.rows@[i].1,
        f.rows@[i].selected <==> m.layout.rows@[i].0 == m.state.selected,
        f.rows@[i].hovered <==> m.hovered == Some(m.layout.rows@[i].0),
        match m.content@[m.layout.rows@[i].0 as int] {
            MenuEntry::Header(g) => f.rows@[i].kind is Header && f.rows@[i].name@ == g.label_text(),
            MenuEntry::Action(p) => f.rows@[i].kind == RowKind::Action(m.actions@[p as int].kind)
                && f.rows@[i].name@ == m.actions@[p as int].label@,
            MenuEntry::App(p) => (f.rows@[i].kind matches RowKind::App(path) && path@
                == m.apps@[p as int].path@) && f.rows@[i].name@ == m.apps@[p as int].name@,
        },
        f.filter@ == m.state.filter@,
        f.no_matches <==> m.content@.len() == 0 && m.state.filter@.len() > 0,
        f.search == m.layout.search,
        f.scrollbar == m.layout.scrollbar,
{
    assert(is_menu_row(f.rows@[i], m, i));
}

/// The messages and the keys by their numbers.
pub proof fn law_menu_messages_are_told_by_number(msg: u32, wparam: usize, lparam: isize)
    ensures
        ({
            let e = menu_event(msg, wparam, lparam);
            let x = message::signed(message::low(lparam as int));
            let y = message::signed(message::high(lparam as int));
            &&& msg == 6 ==> e == if wparam as int % 65536 == 0 {
                MenuEvent::Dismiss
            } else {
                MenuEvent::Other
            }
            &&& msg == 0x100 ==> (e matches MenuEvent::Key(k) && k == wparam as int % 65536)
            &&& msg == 0x102 ==> (e matches MenuEvent::Typed(c) && c == wparam as int % 4294967296)
            &&& msg == 0x201 ==> (e matches MenuEvent::Click(a, b) && a == x && b == y)
            &&& msg == 0x200 ==> (e matches MenuEvent::MouseMove(a, b) && a == x && b == y)
            &&& msg == 0x2a3 ==> e == MenuEvent::MouseLeave
            &&& msg == 0x20a ==> (e matches MenuEvent::Wheel(d) && d == message::signed(
                message::high(wparam as int),
            ))
            &&& msg == 2 ==> e == MenuEvent::Destroyed
        }),
        VK_RETURN == 13,
        VK_ESCAPE == 27,
        VK_UP == 38,
        VK_DOWN == 40,
{
}

/// The entry under a point is the one whose row covers it, unless that is a header.
pub proof fn law_the_row_under_the_mouse_is_chosen(m: StartMenu, i: int, x: int, y: int)
    requires
        m.is_valid(),
        0 <= i < m.layout.rows@.len(),
        m.layout.rows@.len() <= usize::MAX,
        m.layout.rows@[i].1.covers(x, y),
    ensures
        m.choice_under(x, y) == if m.content@[m.layout.rows@[i].0 as int] is Header {
            None
        } else {
            Some(m.layout.rows@[i].0)
        },
{
    startmenu::law_click_selects_the_row_under_it(
        m.layout,
        m.size.0 as int,
        m.size.1 as int,
        m.dpi,
        m.content@.len() as int,
        m.state.scroll as int,
        x,
        y,
    );
    startmenu::law_rows_window_the_list(
        m.layout,
        m.size.0 as int,
        m.size.1 as int,
        m.dpi,
        m.content@.len() as int,
        m.state.scroll as int,
    );
    assert(m.layout.item_at(x, y) == Some(m.layout.rows@[i].0));
}

/// The messages the menu answers by the numbers the system gives them, and its
/// bounds.
pub proof fn law_the_menu_knows_the_systems_numbers()
    ensures
        MENU_WINDOW_CLASS@ == "WinRestyleStartMenu"@,
        REOPEN_DEBOUNCE_MS == 300,
        MAX_APPS == 0x7fff_ff00,
        MAX_ACTIONS == 100,
        MAX_ENTRIES == 0x7fff_ffff,
        WHEEL_ROWS == 3,
        WHEEL_DELTA == 120,
        WM_DESTROY == 0x0002,
        WM_ACTIVATE == 0x0006,
        WM_KEYDOWN == 0x0100,
        WM_CHAR == 0x0102,
        WM_MOUSEMOVE == 0x0200,
        WM_LBUTTONDOWN == 0x0201,
        WM_MOUSEWHEEL == 0x020a,
        WM_MOUSELEAVE == 0x02a3,
{
}

/// An entry can be chosen where it is one and no header; the first such entry is
/// chosen first, and the first of the list where there is none.
pub proof fn law_the_first_entry_is_chosen_first(list: Seq<MenuEntry>, i: usize)
    ensures
        can_choose(list, i) <==> i < list.len() && !(list[i as int] is Header),
        i < list.len() && !(list[i as int] is Header) && (forall|k: int|
            0 <= k < i ==> (#[trigger] list[k]) is Header) ==> first_choice(list) == i,
        (forall|k: int| 0 <= k < list.len() ==> (#[trigger] list[k]) is Header) ==> first_choice(
            list,
        ) == 0,
{
    let s = content::selectable_of(list);
    assert(s.len() == list.len());
    assert forall|k: int| 0 <= k < list.len() implies #[trigger] s[k] == !(list[k] is Header) by {}
    if i < list.len() && !(list[i as int] is Header) && (forall|k: int|
        0 <= k < i ==> (#[trigger] list[k]) is Header) {
        lemma_first_selectable(s, 0, i as int);
    }
    if forall|k: int| 0 <= k < list.len() ==> (#[trigger] list[k]) is Header {
        lemma_none_selectable(s, 0);
    }
}

proof fn lemma_first_selectable(s: Seq<bool>, from: int, i: int)
    requires
        0 <= from <= i < s.len(),
        i <= usize::MAX,
        s[i],
        forall|k: int| from <= k < i ==> !#[trigger] s[k],
    ensures
        startmenu::next_down(s, from) == Some(i as usize),
    decreases i - from,
{
    if from < i {
        lemma_first_selectable(s, from + 1, i);
    }
}

proof fn lemma_none_selectable(s: Seq<bool>, from: int)
    requires
        0 <= from <= s.len(),
        forall|k: int| from <= k < s.len() ==> !#[trigger] s[k],
    ensures
        startmenu::next_down(s, from) is None,
    decreases s.len() - from,
{
    if from < s.len() {
        lemma_none_selectable(s, from + 1);
    }
}

/// What hiding, choosing and pointing leave as it was.
pub proof fn law_the_menu_keeps_what_is_not_asked_for(a: StartMenu, b: StartMenu)
    ensures
        a.same_but_shown(&b) ==> a.dpi == b.dpi && a.size == b.size && a.layout == b.layout
            && a.state == b.state && a.apps == b.apps && a.actions == b.actions && a.content
            == b.content && a.hovered == b.hovered && a.mouse_tracking == b.mouse_tracking,
        a.same_but_selection(&b) ==> a.dpi == b.dpi && a.size == b.size && a.apps == b.apps
            && a.actions == b.actions && a.content == b.content && a.mouse_tracking
            == b.mouse_tracking && a.visible == b.visible && a.dismissed_at == b.dismissed_at
            && a.state.filter == b.state.filter,
        a.same_but_hover(&b) ==> a.dpi == b.dpi && a.size == b.size && a.layout == b.layout
            && a.state == b.state && a.apps == b.apps && a.actions == b.actions && a.content
            == b.content && a.visible == b.visible && a.dismissed_at == b.dismissed_at,
{
}

} // verus!
