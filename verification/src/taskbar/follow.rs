//! How the bars follow what happens around them: the clock, the configuration,
//! the windows, and the monitors.
use vstd::prelude::*;

use crate::config::{Backdrop, Config};
use crate::geometry;
use crate::paths;
use crate::taskbar::bar::{self, Bar, BarState};
use crate::taskbar::clock::{self, LocalTime};
use crate::taskbar::layout::{self, BarRect};
use crate::taskbar::render::Frame;
use crate::taskbar::tasks::{self, Icon, TaskWindow};
use crate::taskbar::tray_host::{self, Repaint};
use crate::taskbar::winlist;
use crate::text;

verus! {

impl BarState {
    /// A clock tick. Icons of owners whose window is gone are forgotten, and
    /// the bars are laid out again where there were any; else they are redrawn
    /// where the clock's text changed. `dead` are the owners, of those
    /// [`TrayHost::owners`](crate::taskbar::tray_host::TrayHost::owners) named,
    /// that have no window any more.
    pub fn on_timer(&mut self, now: &LocalTime, dead: &Vec<isize>) -> (r: Repaint)
        ensures
            *final(self) == (BarState { tray: final(self).tray, ..*old(self) }),
            r == if dead@.len() > 0 {
                Repaint::Relayout
            } else if old(self).clock@ != clock::clock_text(*now) || old(self).date@
                != clock::date_text(*now, old(self).config.taskbar.show_date) {
                Repaint::Redraw
            } else {
                Repaint::Nothing
            },
            dead@.len() == 0 ==> final(self).tray == old(self).tray,
            dead@.len() > 0 ==> {
                &&& final(self).tray.hosting == old(self).tray.hosting
                &&& final(self).tray.icons@ == tray_host::surviving_icons(
                    old(self).tray.icons@,
                    dead@,
                )
                &&& forall|o: isize, u: u32|
                    #[trigger] tray_host::pixels_of(final(self).tray.pixels@, o, u)
                        == if dead@.contains(o) {
                        None
                    } else {
                        tray_host::pixels_of(old(self).tray.pixels@, o, u)
                    }
            },
    {
        if dead.len() > 0 {
            self.tray.prune(dead);
            return Repaint::Relayout;
        }
        let (clock, date) = clock::clock_strings(now, self.config.taskbar.show_date);
        if !text::same_text(self.clock.as_str(), clock.as_str()) || !text::same_text(
            self.date.as_str(),
            date.as_str(),
        ) {
            Repaint::Redraw
        } else {
            Repaint::Nothing
        }
    }

    /// Put the current time on the clock.
    pub fn set_clock(&mut self, now: &LocalTime)
        ensures
            *final(self) == (BarState {
                clock: final(self).clock,
                date: final(self).date,
                ..*old(self)
            }),
            final(self).clock@ == clock::clock_text(*now),
            final(self).date@ == clock::date_text(*now, old(self).config.taskbar.show_date),
    {
        let (clock, date) = clock::clock_strings(now, self.config.taskbar.show_date);
        self.clock = clock;
        self.date = date;
    }

    /// The configuration file was re-read: take it over. `None` where it holds
    /// the same settings; else whether the pinned launchers changed, so that
    /// their icons are to be fetched.
    pub fn on_config_changed(&mut self, new: Config) -> (r: Option<bool>)
        ensures
            r is Some <==> !crate::config::same_settings(new@, old(self).config@),
            r matches Some(pinned_changed) ==> {
                &&& pinned_changed == !paths::same_paths(
                    new@.taskbar.pinned,
                    old(self).config@.taskbar.pinned,
                )
                &&& *final(self) == (BarState {
                    config: new,
                    log_next_paint: true,
                    ..*old(self)
                })
            },
            r is None ==> *final(self) == *old(self),
    {
        if new == self.config {
            return None;
        }
        let pinned_changed: bool = !paths::same_list(
            &new.taskbar.pinned,
            &self.config.taskbar.pinned,
        );
        self.config = new;
        self.log_next_paint = true;
        Some(pinned_changed)
    }

    /// Put the pinned launchers on the bars.
    pub fn set_pinned(&mut self, pinned: Vec<(String, Option<Icon>)>)
        ensures
            *final(self) == (BarState { pinned, ..*old(self) }),
    {
        self.pinned = pinned;
    }
}

/// How a backdrop is asked for.
#[derive(Debug, Clone, Copy, PartialEq, Eq, Structural)]
pub struct BackdropPlan {
    /// The system material: 1 is none, 3 the transient window's, 2 the main
    /// window's.
    pub material: u32,
    /// Whether the system rounds the window's corners.
    pub rounded: bool,
    /// The frame margin on every side: -1 extends the frame over the whole
    /// window, which is where the material shows.
    pub margin: i32,
}

/// How a backdrop is asked for.
pub open spec fn plan_of(backdrop: Backdrop) -> BackdropPlan {
    match backdrop {
        Backdrop::Plain => BackdropPlan { material: 1, rounded: false, margin: 0 },
        Backdrop::Acrylic => BackdropPlan { material: 3, rounded: true, margin: (-1) as i32 },
        Backdrop::Mica => BackdropPlan { material: 2, rounded: true, margin: (-1) as i32 },
    }
}

/// How a backdrop is asked for.
pub fn backdrop_plan(backdrop: Backdrop) -> (r: BackdropPlan)
    ensures
        r == plan_of(backdrop),
{
    match backdrop {
        Backdrop::Plain => BackdropPlan { material: 1, rounded: false, margin: 0 },
        Backdrop::Acrylic => BackdropPlan { material: 3, rounded: true, margin: -1 },
        Backdrop::Mica => BackdropPlan { material: 2, rounded: true, margin: -1 },
    }
}

/// The windows of the bars that carry another backdrop than the given one.
pub open spec fn without_backdrop(bars: Seq<Bar>, backdrop: Backdrop) -> Seq<isize>
    decreases bars.len(),
{
    if bars.len() == 0 {
        Seq::empty()
    } else if bars.last().applied_backdrop != backdrop {
        without_backdrop(bars.drop_last(), backdrop).push(bars.last().hwnd)
    } else {
        without_backdrop(bars.drop_last(), backdrop)
    }
}

impl BarState {
    /// The windows to push the configured backdrop onto: those that do not carry
    /// it already.
    pub fn backdrop_targets(&self) -> (r: Vec<isize>)
        ensures
            r@ == without_backdrop(self.bars@, self.config.taskbar.backdrop),
    {
        let backdrop = self.config.taskbar.backdrop;
        let mut out: Vec<isize> = Vec::new();
        let mut i: usize = 0;
        while i < self.bars.len()
            invariant
                i <= self.bars@.len(),
                out@ == without_backdrop(self.bars@.take(i as int), backdrop),
            decreases self.bars@.len() - i,
        {
            proof {
                assert(self.bars@.take(i + 1).drop_last() =~= self.bars@.take(i as int));
                assert(self.bars@.take(i + 1).last() == self.bars@[i as int]);
            }
            if self.bars[i].applied_backdrop != backdrop {
                out.push(self.bars[i].hwnd);
            }
            i = i + 1;
        }
        proof {
            assert(self.bars@.take(self.bars@.len() as int) =~= self.bars@);
        }
        out
    }

    /// Record that the configured backdrop was pushed onto windows, whether or
    /// not the system took it: one that does not will not because it is asked
    /// again.
    pub fn record_backdrop(&mut self, targets: &Vec<isize>, backdrop: Backdrop)
        ensures
            final(self).same_but_bars(old(self)),
            final(self).bars@.len() == old(self).bars@.len(),
            forall|i: int|
                0 <= i < old(self).bars@.len() ==> #[trigger] final(self).bars@[i]
                    == if targets@.contains(old(self).bars@[i].hwnd) {
                    Bar { applied_backdrop: backdrop, ..old(self).bars@[i] }
                } else {
                    old(self).bars@[i]
                },
    {
        let mut i: usize = 0;
        while i < self.bars.len()
            invariant
                i <= self.bars@.len(),
                self.same_but_bars(old(self)),
                self.bars@.len() == old(self).bars@.len(),
                forall|k: int|
                    0 <= k < i ==> #[trigger] self.bars@[k] == if targets@.contains(
                        old(self).bars@[k].hwnd,
                    ) {
                        Bar { applied_backdrop: backdrop, ..old(self).bars@[k] }
                    } else {
                        old(self).bars@[k]
                    },
                forall|k: int|
                    i <= k < self.bars@.len() ==> #[trigger] self.bars@[k] == old(self).bars@[k],
            decreases self.bars@.len() - i,
        {
            if tray_host::contains_handle(targets, self.bars[i].hwnd) {
                self.bars[i].applied_backdrop = backdrop;
            }
            i = i + 1;
        }
    }
}

/// After a backdrop was pushed onto the windows that lacked it, none lacks it.
pub proof fn law_backdrops_are_pushed_once(before: Seq<Bar>, after: Seq<Bar>, backdrop: Backdrop)
    requires
        after.len() == before.len(),
        forall|i: int|
            0 <= i < before.len() ==> #[trigger] after[i] == if without_backdrop(
                before,
                backdrop,
            ).contains(before[i].hwnd) {
                Bar { applied_backdrop: backdrop, ..before[i] }
            } else {
                before[i]
            },
    ensures
        without_backdrop(after, backdrop) == Seq::<isize>::empty(),
{
    assert forall|i: int| 0 <= i < after.len() implies (#[trigger] after[i]).applied_backdrop
        == backdrop by {
        lemma_lacks_backdrop(before, backdrop, i);
    }
    lemma_none_lacks(after, backdrop);
}

proof fn lemma_lacks_backdrop(bars: Seq<Bar>, backdrop: Backdrop, i: int)
    requires
        0 <= i < bars.len(),
    ensures
        bars[i].applied_backdrop != backdrop ==> without_backdrop(bars, backdrop).contains(
            bars[i].hwnd,
        ),
    decreases bars.len(),
{
    let init = bars.drop_last();
    let rest = without_backdrop(init, backdrop);
    let all = without_backdrop(bars, backdrop);
    if bars[i].applied_backdrop != backdrop {
        if i < init.len() {
            lemma_lacks_backdrop(init, backdrop, i);
            assert(init[i] == bars[i]);
            let k = choose|k: int| 0 <= k < rest.len() && rest[k] == bars[i].hwnd;
            assert(all[k] == rest[k]);
        } else {
            assert(all[rest.len() as int] == bars[i].hwnd);
        }
    }
}

proof fn lemma_none_lacks(bars: Seq<Bar>, backdrop: Backdrop)
    requires
        forall|i: int| 0 <= i < bars.len() ==> (#[trigger] bars[i]).applied_backdrop == backdrop,
    ensures
        without_backdrop(bars, backdrop) == Seq::<isize>::empty(),
    decreases bars.len(),
{
    if bars.len() > 0 {
        let init = bars.drop_last();
        assert forall|i: int| 0 <= i < init.len() implies (#[trigger] init[i]).applied_backdrop
            == backdrop by {
            assert(init[i] == bars[i]);
        }
        lemma_none_lacks(init, backdrop);
        assert(bars[bars.len() - 1] == bars.last());
    }
}

/// Whether the bar of a monitor can be computed.
pub open spec fn placement_fits(
    mon: (i32, i32, i32, i32),
    height: u32,
    margin: u32,
    dpi: u32,
) -> bool {
    let h = layout::extent(geometry::max_of(height as int, 1), dpi);
    let m = layout::at_dpi(margin as int, dpi);
    &&& layout::bar_fits(mon.2 as int, mon.3 as int, height, margin, dpi)
    &&& geometry::is_i32(mon.0 + m)
    &&& geometry::is_i32(mon.1 + geometry::max_of(mon.3 - h - m, 0))
}

/// Whether `r` is the bar of a monitor: the bar of a screen of its size, at the
/// monitor's place.
pub open spec fn is_placed_bar(
    r: BarRect,
    mon: (i32, i32, i32, i32),
    height: u32,
    margin: u32,
    dpi: u32,
) -> bool {
    let h = layout::extent(geometry::max_of(height as int, 1), dpi);
    let m = layout::at_dpi(margin as int, dpi);
    r.is_at(
        mon.0 + m,
        mon.1 + geometry::max_of(mon.3 - h - m, 0),
        geometry::max_of(mon.2 - 2 * m, 1),
        h,
    )
}

/// Where the bar of a monitor goes, in virtual-screen pixels.
pub fn place_bar(mon: (i32, i32, i32, i32), height: u32, margin: u32, dpi: u32) -> (r: BarRect)
    requires
        placement_fits(mon, height, margin, dpi),
    ensures
        is_placed_bar(r, mon, height, margin, dpi),
{
    let local = layout::bar_rect(mon.2, mon.3, height, margin, dpi);
    BarRect { x: mon.0 + local.x, y: mon.1 + local.y, w: local.w, h: local.h }
}

/// A bar on a monitor at the origin is the bar of a screen of that size.
pub proof fn law_placement_at_the_origin(
    r: BarRect,
    mon: (i32, i32, i32, i32),
    height: u32,
    margin: u32,
    dpi: u32,
)
    requires
        mon.0 == 0,
        mon.1 == 0,
    ensures
        is_placed_bar(r, mon, height, margin, dpi) <==> layout::is_bar_rect(
            r,
            mon.2 as int,
            mon.3 as int,
            height,
            margin,
            dpi,
        ),
{
}

/// A window and where it goes.
#[derive(Debug, Clone, Copy, PartialEq, Eq, Structural)]
pub struct Placement {
    pub hwnd: isize,
    pub rect: BarRect,
}

/// The windows of the bars a change concerns: all, or the ones of one handle.
pub open spec fn concerned(bars: Seq<Bar>, only: Option<isize>) -> Seq<Bar>
    decreases bars.len(),
{
    if bars.len() == 0 {
        Seq::empty()
    } else if only is None || only == Some(bars.last().hwnd) {
        concerned(bars.drop_last(), only).push(bars.last())
    } else {
        concerned(bars.drop_last(), only)
    }
}

impl BarState {
    /// Whether every bar can be placed.
    pub open spec fn places_fit(&self) -> bool {
        forall|i: int|
            0 <= i < self.bars@.len() ==> placement_fits(
                (#[trigger] self.bars@[i]).mon,
                self.config.taskbar.height,
                self.config.taskbar.margin,
                self.bars@[i].dpi,
            )
    }

    /// Where the bars go (all of them, or just one): one placement per bar
    /// concerned, in order.
    pub fn apply_layout(&self, only: Option<isize>) -> (r: Vec<Placement>)
        requires
            self.places_fit(),
        ensures
            r@.len() == concerned(self.bars@, only).len(),
            forall|i: int|
                #![trigger r@[i]]
                0 <= i < r@.len() ==> {
                    let b = concerned(self.bars@, only)[i];
                    &&& r@[i].hwnd == b.hwnd
                    &&& is_placed_bar(
                        r@[i].rect,
                        b.mon,
                        self.config.taskbar.height,
                        self.config.taskbar.margin,
                        b.dpi,
                    )
                },
    {
        let height: u32 = self.config.taskbar.height;
        let margin: u32 = self.config.taskbar.margin;
        let mut out: Vec<Placement> = Vec::new();
        let mut i: usize = 0;
        while i < self.bars.len()
            invariant
                self.places_fit(),
                height == self.config.taskbar.height,
                margin == self.config.taskbar.margin,
                i <= self.bars@.len(),
                out@.len() == concerned(self.bars@.take(i as int), only).len(),
                forall|k: int|
                    #![trigger out@[k]]
                    0 <= k < out@.len() ==> {
                        let b = concerned(self.bars@.take(i as int), only)[k];
                        &&& out@[k].hwnd == b.hwnd
                        &&& is_placed_bar(out@[k].rect, b.mon, height, margin, b.dpi)
                    },
            decreases self.bars@.len() - i,
        {
            proof {
                assert(self.bars@.take(i + 1).drop_last() =~= self.bars@.take(i as int));
                assert(self.bars@.take(i + 1).last() == self.bars@[i as int]);
            }
            let bar = &self.bars[i];
            let wanted: bool = match only {
                None => true,
                Some(h) => h == bar.hwnd,
            };
            if wanted {
                out.push(
                    Placement {
                        hwnd: bar.hwnd,
                        rect: place_bar(bar.mon, height, margin, bar.dpi),
                    },
                );
            }
            i = i + 1;
        }
        proof {
            assert(self.bars@.take(self.bars@.len() as int) =~= self.bars@);
        }
        out
    }

    /// Lay out what is on every bar again, for client areas of these sizes. What
    /// the mouse is over may have shifted, so nothing is hovered until it moves.
    pub fn relayout_all(&mut self, sizes: &Vec<(i32, i32)>)
        requires
            sizes@.len() == old(self).bars@.len(),
            forall|i: int|
                0 <= i < sizes@.len() ==> bar::bar_layout_fits(
                    (#[trigger] sizes@[i]).0,
                    sizes@[i].1,
                    old(self).bars@[i].dpi,
                    old(self).pinned@.len() as int,
                    old(self).tasks@.len() as int,
                    tray_host::visible_count(old(self).tray.icons@) as int,
                ),
        ensures
            final(self).same_but_bars(old(self)),
            final(self).bars@.len() == old(self).bars@.len(),
            forall|i: int|
                #![trigger final(self).bars@[i]]
                0 <= i < old(self).bars@.len() ==> {
                    &&& final(self).bars@[i] == (Bar {
                        layout: final(self).bars@[i].layout,
                        hovered: None,
                        ..old(self).bars@[i]
                    })
                    &&& bar::is_bar_layout(
                        final(self).bars@[i].layout,
                        sizes@[i].0,
                        sizes@[i].1,
                        old(self).bars@[i].dpi,
                        old(self).pinned@.len() as int,
                        old(self).tasks@.len() as int,
                        tray_host::visible_count(old(self).tray.icons@) as int,
                    )
                },
    {
        let pinned: usize = self.pinned.len();
        let count: usize = self.tasks.len();
        let tray: usize = tray_host::visible_tray(&self.tray.icons);
        let mut i: usize = 0;
        while i < self.bars.len()
            invariant
                i <= self.bars@.len(),
                pinned == old(self).pinned@.len(),
                count == old(self).tasks@.len(),
                tray == tray_host::visible_count(old(self).tray.icons@),
                sizes@.len() == old(self).bars@.len(),
                forall|k: int|
                    0 <= k < sizes@.len() ==> bar::bar_layout_fits(
                        (#[trigger] sizes@[k]).0,
                        sizes@[k].1,
                        old(self).bars@[k].dpi,
                        pinned as int,
                        count as int,
                        tray as int,
                    ),
                self.same_but_bars(old(self)),
                self.bars@.len() == old(self).bars@.len(),
                forall|k: int|
                    #![trigger self.bars@[k]]
                    0 <= k < i ==> {
                        &&& self.bars@[k] == (Bar {
                            layout: self.bars@[k].layout,
                            hovered: None,
                            ..old(self).bars@[k]
                        })
                        &&& bar::is_bar_layout(
                            self.bars@[k].layout,
                            sizes@[k].0,
                            sizes@[k].1,
                            old(self).bars@[k].dpi,
                            pinned as int,
                            count as int,
                            tray as int,
                        )
                    },
                forall|k: int|
                    i <= k < self.bars@.len() ==> #[trigger] self.bars@[k] == old(self).bars@[k],
            decreases self.bars@.len() - i,
        {
            let size = sizes[i];
            let dpi: u32 = self.bars[i].dpi;
            let l = bar::bar_layout(size.0, size.1, dpi, pinned, count, tray);
            self.bars[i].layout = l;
            self.bars[i].hovered = None;
            i = i + 1;
        }
    }
}

/// What a look at the windows changed.
pub struct Refreshed {
    pub repaint: Repaint,
    /// New windows, whose icons are to be fetched.
    pub added: Vec<TaskWindow>,
    /// Windows that are gone, whose icons are to be forgotten.
    pub removed: Vec<TaskWindow>,
}

/// The icons after forgetting those of some windows.
pub open spec fn icons_without(
    icons: Map<isize, Option<Icon>>,
    removed: Seq<TaskWindow>,
) -> Map<isize, Option<Icon>>
    decreases removed.len(),
{
    if removed.len() == 0 {
        icons
    } else {
        icons_without(icons, removed.drop_last()).remove(removed.last().hwnd)
    }
}

/// The icons after storing fetched ones.
pub open spec fn icons_with(
    icons: Map<isize, Option<Icon>>,
    fetched: Seq<(isize, Option<Icon>)>,
) -> Map<isize, Option<Icon>>
    decreases fetched.len(),
{
    if fetched.len() == 0 {
        icons
    } else {
        icons_with(icons, fetched.drop_last()).insert(fetched.last().0, fetched.last().1)
    }
}

/// Whether a window list was replaced by one that shows the same buttons, or is
/// the one after the merge.
pub open spec fn is_merged(
    before: Seq<TaskWindow>,
    fresh: Seq<TaskWindow>,
    after: Seq<TaskWindow>,
) -> bool {
    winlist::buttons(after) == winlist::buttons(
        tasks::survivors(before, fresh) + tasks::missing_from(fresh, before),
    )
}

impl BarState {
    /// The windows were looked at: merge them into the button list. The bars are
    /// laid out again only where the number of buttons changed; a new title or
    /// another foreground window just redraws, and keeps what is hovered.
    pub fn refresh_windows(&mut self, fresh: &Vec<TaskWindow>, active: isize) -> (r: Refreshed)
        ensures
            *final(self) == (BarState { tasks: final(self).tasks, active, ..*old(self) }),
            is_merged(old(self).tasks@, fresh@, final(self).tasks@),
            r.added@ == tasks::missing_from(fresh@, old(self).tasks@),
            r.removed@ == tasks::missing_from(old(self).tasks@, fresh@),
            r.repaint == if final(self).tasks@.len() != old(self).tasks@.len() {
                Repaint::Relayout
            } else if winlist::buttons(final(self).tasks@) != winlist::buttons(old(self).tasks@)
                || active != old(self).active {
                Repaint::Redraw
            } else {
                Repaint::Nothing
            },
    {
        let (merged, added, removed) = tasks::merge(self.tasks.as_slice(), fresh.as_slice());
        let count_changed: bool = merged.len() != self.tasks.len();
        let list_changed: bool = !winlist::same_buttons(&merged, &self.tasks);
        let active_changed: bool = self.active != active;
        proof {
            assert(winlist::buttons(merged@).len() == merged@.len());
            assert(winlist::buttons(self.tasks@).len() == self.tasks@.len());
        }
        if list_changed {
            self.tasks = merged;
        }
        self.active = active;
        let repaint = if count_changed {
            Repaint::Relayout
        } else if list_changed || active_changed {
            Repaint::Redraw
        } else {
            Repaint::Nothing
        };
        Refreshed { repaint, added, removed }
    }

    /// Forget the icons of windows that are gone, and keep those fetched for new
    /// ones.
    pub fn store_icons(
        &mut self,
        removed: &Vec<TaskWindow>,
        fetched: Vec<(isize, Option<Icon>)>,
    )
        ensures
            *final(self) == (BarState { icons: final(self).icons, ..*old(self) }),
            final(self).icons@ == icons_with(icons_without(old(self).icons@, removed@), fetched@),
    {
        broadcast use vstd::std_specs::hash::group_hash_axioms;

        let mut i: usize = 0;
        while i < removed.len()
            invariant
                i <= removed@.len(),
                *self == (BarState { icons: self.icons, ..*old(self) }),
                self.icons@ == icons_without(old(self).icons@, removed@.take(i as int)),
            decreases removed@.len() - i,
        {
            proof {
                assert(removed@.take(i + 1).drop_last() =~= removed@.take(i as int));
                assert(removed@.take(i + 1).last() == removed@[i as int]);
            }
            let _ = self.icons.remove(&removed[i].hwnd);
            i = i + 1;
        }
        proof {
            assert(removed@.take(removed@.len() as int) =~= removed@);
        }
        let ghost kept = self.icons@;
        let ghost all = fetched@;
        let mut rest = fetched;
        let ghost mut k: int = 0;
        while rest.len() > 0
            invariant
                0 <= k <= all.len(),
                rest@ == all.skip(k),
                *self == (BarState { icons: self.icons, ..*old(self) }),
                self.icons@ == icons_with(kept, all.take(k)),
            decreases rest@.len(),
        {
            let (hwnd, icon) = rest.remove(0);
            proof {
                assert(all.skip(k)[0] == all[k]);
                assert(all.take(k + 1).drop_last() =~= all.take(k));
                assert(all.take(k + 1).last() == all[k]);
                assert(all.skip(k).remove(0) =~= all.skip(k + 1));
                k = k + 1;
            }
            let _ = self.icons.insert(hwnd, icon);
        }
        proof {
            assert(all.take(k) =~= all);
        }
    }
}

proof fn lemma_icons_without(
    icons: Map<isize, Option<Icon>>,
    removed: Seq<TaskWindow>,
    hwnd: isize,
)
    ensures
        icons_without(icons, removed).dom().contains(hwnd) <==> icons.dom().contains(hwnd)
            && !tasks::listed(removed, hwnd),
    decreases removed.len(),
{
    if removed.len() > 0 {
        let init = removed.drop_last();
        lemma_icons_without(icons, init, hwnd);
        if tasks::listed(init, hwnd) {
            let i = choose|i: int| 0 <= i < init.len() && (#[trigger] init[i]).hwnd == hwnd;
            assert(removed[i] == init[i]);
        }
        if tasks::listed(removed, hwnd) {
            let i = choose|i: int| 0 <= i < removed.len() && (#[trigger] removed[i]).hwnd == hwnd;
            if i < init.len() {
                assert(init[i] == removed[i]);
            }
        }
        assert(removed[removed.len() - 1] == removed.last());
    }
}

/// Whether icons were fetched for exactly those windows, in order.
pub open spec fn fetched_for(fetched: Seq<(isize, Option<Icon>)>, added: Seq<TaskWindow>) -> bool {
    &&& fetched.len() == added.len()
    &&& forall|i: int| 0 <= i < added.len() ==> (#[trigger] fetched[i]).0 == added[i].hwnd
}

proof fn lemma_icons_with(
    icons: Map<isize, Option<Icon>>,
    fetched: Seq<(isize, Option<Icon>)>,
    added: Seq<TaskWindow>,
    hwnd: isize,
)
    requires
        fetched_for(fetched, added),
    ensures
        icons_with(icons, fetched).dom().contains(hwnd) <==> icons.dom().contains(hwnd)
            || tasks::listed(added, hwnd),
    decreases added.len(),
{
    if added.len() > 0 {
        let init = added.drop_last();
        assert(fetched_for(fetched.drop_last(), init)) by {
            assert forall|i: int| 0 <= i < init.len() implies (#[trigger] fetched.drop_last()[i]).0
                == init[i].hwnd by {
                assert(fetched.drop_last()[i] == fetched[i]);
            }
        }
        lemma_icons_with(icons, fetched.drop_last(), init, hwnd);
        assert(fetched[added.len() - 1] == fetched.last());
        assert(added[added.len() - 1] == added.last());
        if tasks::listed(init, hwnd) {
            let i = choose|i: int| 0 <= i < init.len() && (#[trigger] init[i]).hwnd == hwnd;
            assert(added[i] == init[i]);
        }
        if tasks::listed(added, hwnd) {
            let i = choose|i: int| 0 <= i < added.len() && (#[trigger] added[i]).hwnd == hwnd;
            if i < init.len() {
                assert(init[i] == added[i]);
            }
        }
    } else {
        assert(fetched.len() == 0);
    }
}

/// Where icons are kept for exactly the listed windows, they still are after a
/// refresh that forgets those of the removed windows and stores the ones fetched
/// for the added windows.
pub proof fn law_icons_follow_the_windows(
    icons: Map<isize, Option<Icon>>,
    before: Seq<TaskWindow>,
    fresh: Seq<TaskWindow>,
    fetched: Seq<(isize, Option<Icon>)>,
    hwnd: isize,
)
    requires
        icons.dom().contains(hwnd) <==> tasks::listed(before, hwnd),
        fetched_for(fetched, tasks::missing_from(fresh, before)),
    ensures
        icons_with(icons_without(icons, tasks::missing_from(before, fresh)), fetched).dom().contains(
            hwnd,
        ) <==> tasks::listed(
            tasks::survivors(before, fresh) + tasks::missing_from(fresh, before),
            hwnd,
        ),
{
    let removed = tasks::missing_from(before, fresh);
    let added = tasks::missing_from(fresh, before);
    tasks::law_merge_lists_the_fresh_windows(before, fresh, hwnd);
    lemma_icons_without(icons, removed, hwnd);
    lemma_icons_with(icons_without(icons, removed), fetched, added, hwnd);
}

/// One monitor's place in virtual-screen pixels, and its DPI.
#[derive(Debug, Clone, Copy, PartialEq, Eq, Structural)]
pub struct Monitor {
    pub x: i32,
    pub y: i32,
    pub w: i32,
    pub h: i32,
    pub dpi: u32,
}

/// A DPI, at least 1: the monitor's own where it could be had, else the
/// system's.
pub open spec fn monitor_dpi(own: Option<u32>, system: u32) -> int {
    geometry::max_of(
        match own {
            Some(dpi) => if dpi > 0 {
                dpi as int
            } else {
                system as int
            },
            None => system as int,
        },
        1,
    )
}

/// A monitor from its edges.
pub fn monitor(
    left: i32,
    top: i32,
    right: i32,
    bottom: i32,
    own_dpi: Option<u32>,
    system_dpi: u32,
) -> (r: Monitor)
    requires
        geometry::is_i32(right - left),
        geometry::is_i32(bottom - top),
    ensures
        r.x == left,
        r.y == top,
        r.w == right - left,
        r.h == bottom - top,
        r.dpi == monitor_dpi(own_dpi, system_dpi),
{
    let dpi: u32 = match own_dpi {
        Some(dpi) => if dpi > 0 {
            dpi
        } else {
            system_dpi
        },
        None => system_dpi,
    };
    Monitor {
        x: left,
        y: top,
        w: right - left,
        h: bottom - top,
        dpi: if dpi >= 1 {
            dpi
        } else {
            1
        },
    }
}

/// The monitors to put a bar on: those found, or one in the place of the primary
/// screen where none could be.
pub fn monitors(
    found: Vec<Monitor>,
    listed: bool,
    screen_w: i32,
    screen_h: i32,
    system_dpi: u32,
) -> (r: Vec<Monitor>)
    ensures
        r@.len() > 0,
        listed && found@.len() > 0 ==> r == found,
        !listed || found@.len() == 0 ==> r@ == seq![
            Monitor {
                x: 0,
                y: 0,
                w: screen_w,
                h: screen_h,
                dpi: monitor_dpi(None, system_dpi) as u32,
            },
        ],
{
    if listed && found.len() > 0 {
        return found;
    }
    let mut out: Vec<Monitor> = Vec::new();
    out.push(
        Monitor {
            x: 0,
            y: 0,
            w: screen_w,
            h: screen_h,
            dpi: if system_dpi >= 1 {
                system_dpi
            } else {
                1
            },
        },
    );
    proof {
        assert(out@ =~= seq![
            Monitor {
                x: 0,
                y: 0,
                w: screen_w,
                h: screen_h,
                dpi: monitor_dpi(None, system_dpi) as u32,
            },
        ]);
    }
    out
}

/// Display changes arrive in bursts, and a rebuild lets messages in: one that
/// comes in during a rebuild queues a single run after it.
#[derive(Debug, Clone, Copy, PartialEq, Eq, Structural)]
pub struct Rebuild {
    pub running: bool,
    pub queued: bool,
}

impl Rebuild {
    /// No rebuild runs.
    pub fn new() -> (r: Self)
        ensures
            r == (Rebuild { running: false, queued: false }),
    {
        Rebuild { running: false, queued: false }
    }

    /// A rebuild is asked for: whether to run one now.
    pub fn rebuild_bars(&mut self) -> (r: bool)
        ensures
            r == !old(self).running,
            *final(self) == if old(self).running {
                Rebuild { queued: true, ..*old(self) }
            } else {
                Rebuild { running: true, ..*old(self) }
            },
    {
        if self.running {
            self.queued = true;
            return false;
        }
        self.running = true;
        true
    }

    /// A run is over: whether to run once more, because one was asked for
    /// meanwhile.
    pub fn run_over(&mut self) -> (r: bool)
        ensures
            r == old(self).queued,
            *final(self) == (Rebuild { running: old(self).queued, queued: false }),
    {
        let again: bool = self.queued;
        self.queued = false;
        self.running = again;
        again
    }
}

/// Where a rebuild of the bars is: what to do next.
#[derive(Debug, Clone, Copy, PartialEq, Eq, Structural)]
pub enum RebuildStep {
    /// Destroy the start menu, which is anchored to a bar that goes.
    DropMenu,
    /// Take the bars out of the set, then destroy their windows.
    DestroyBars,
    /// Make a bar on every monitor; good where at least one was made.
    CreateBars,
    /// Aim the window events at the first new bar.
    Retarget,
    /// Re-arm the refresh latch: a notification to a destroyed bar died with it.
    AckRefresh,
    /// Start the clock timer on the first new bar.
    StartTimer,
    ApplyBackdrop,
    RefreshWindows,
    Relayout,
    /// Re-read the configuration: an announcement to a destroyed bar died with
    /// it.
    ReloadConfig,
    Done,
    /// No bar could be made: exit with code 1 for a supervised relaunch.
    Quit,
}

/// The step after `step`, given whether it went well, which matters where the
/// bars are made.
pub open spec fn rebuild_next(step: RebuildStep, ok: bool) -> RebuildStep {
    match step {
        RebuildStep::DropMenu => RebuildStep::DestroyBars,
        RebuildStep::DestroyBars => RebuildStep::CreateBars,
        RebuildStep::CreateBars => if ok {
            RebuildStep::Retarget
        } else {
            RebuildStep::Quit
        },
        RebuildStep::Retarget => RebuildStep::AckRefresh,
        RebuildStep::AckRefresh => RebuildStep::StartTimer,
        RebuildStep::StartTimer => RebuildStep::ApplyBackdrop,
        RebuildStep::ApplyBackdrop => RebuildStep::RefreshWindows,
        RebuildStep::RefreshWindows => RebuildStep::Relayout,
        RebuildStep::Relayout => RebuildStep::ReloadConfig,
        RebuildStep::ReloadConfig => RebuildStep::Done,
        RebuildStep::Done => RebuildStep::Done,
        RebuildStep::Quit => RebuildStep::Quit,
    }
}

/// The next step of a rebuild, which starts at [`RebuildStep::DropMenu`].
pub fn rebuild_bars_once(step: RebuildStep, ok: bool) -> (r: RebuildStep)
    ensures
        r == rebuild_next(step, ok),
{
    match step {
        RebuildStep::DropMenu => RebuildStep::DestroyBars,
        RebuildStep::DestroyBars => RebuildStep::CreateBars,
        RebuildStep::CreateBars => if ok {
            RebuildStep::Retarget
        } else {
            RebuildStep::Quit
        },
        RebuildStep::Retarget => RebuildStep::AckRefresh,
        RebuildStep::AckRefresh => RebuildStep::StartTimer,
        RebuildStep::StartTimer => RebuildStep::ApplyBackdrop,
        RebuildStep::ApplyBackdrop => RebuildStep::RefreshWindows,
        RebuildStep::RefreshWindows => RebuildStep::Relayout,
        RebuildStep::Relayout => RebuildStep::ReloadConfig,
        RebuildStep::ReloadConfig => RebuildStep::Done,
        RebuildStep::Done => RebuildStep::Done,
        RebuildStep::Quit => RebuildStep::Quit,
    }
}

/// The steps of a rebuild from `step` on, given whether the bars could be made,
/// after `n` of them.
pub open spec fn rebuild_after(step: RebuildStep, ok: bool, n: nat) -> RebuildStep
    decreases n,
{
    if n == 0 {
        step
    } else {
        rebuild_next(rebuild_after(step, ok, (n - 1) as nat), ok)
    }
}

/// A rebuild ends within ten steps: done where a bar could be made, and with the
/// program where none could be.
pub proof fn law_a_rebuild_ends(ok: bool, n: nat)
    requires
        n >= 10,
    ensures
        rebuild_after(RebuildStep::DropMenu, ok, n) == if ok {
            RebuildStep::Done
        } else {
            RebuildStep::Quit
        },
    decreases n,
{
    if n == 10 {
        reveal_with_fuel(rebuild_after, 11);
    } else {
        law_a_rebuild_ends(ok, (n - 1) as nat);
    }
}

impl BarState {
    /// Take the start menu out: whether there was one.
    pub fn take_menu(&mut self) -> (r: bool)
        ensures
            *final(self) == (BarState { menu: None, ..*old(self) }),
            r == (old(self).menu is Some),
    {
        let had: bool = self.menu.is_some();
        self.menu = None;
        had
    }

    /// Take the bars out of the set: their windows, to be destroyed.
    pub fn take_bars(&mut self) -> (r: Vec<isize>)
        ensures
            final(self).same_but_bars(old(self)),
            final(self).bars@.len() == 0,
            r@ == old(self).bars@.map_values(|b: Bar| b.hwnd),
    {
        let mut out: Vec<isize> = Vec::new();
        let mut i: usize = 0;
        while i < self.bars.len()
            invariant
                i <= self.bars@.len(),
                *self == *old(self),
                out@ == self.bars@.take(i as int).map_values(|b: Bar| b.hwnd),
            decreases self.bars@.len() - i,
        {
            proof {
                assert(self.bars@.take(i + 1) =~= self.bars@.take(i as int).push(
                    self.bars@[i as int],
                ));
            }
            out.push(self.bars[i].hwnd);
            i = i + 1;
            proof {
                assert(out@ =~= self.bars@.take(i as int).map_values(|b: Bar| b.hwnd));
            }
        }
        proof {
            assert(self.bars@.take(self.bars@.len() as int) =~= self.bars@);
        }
        self.bars = Vec::new();
        out
    }

    /// Put new bars into the set.
    pub fn install_bars(&mut self, bars: Vec<Bar>)
        ensures
            *final(self) == (BarState { bars, log_next_paint: true, ..*old(self) }),
    {
        self.bars = bars;
        self.log_next_paint = true;
    }

    /// A bar was drawn: whether to log it.
    pub fn on_drawn(&mut self) -> (r: bool)
        ensures
            *final(self) == (BarState { log_next_paint: false, ..*old(self) }),
            r == old(self).log_next_paint,
    {
        let log: bool = self.log_next_paint;
        self.log_next_paint = false;
        log
    }
}

/// A display change during a rebuild is not lost and runs once more after it,
/// however many came; without one the rebuild is over.
pub proof fn law_display_changes_coalesce(asked: nat, during: Rebuild)
    requires
        during == asked_during(Rebuild { running: true, queued: false }, asked),
    ensures
        during.running,
        during.queued <==> asked > 0,
{
    lemma_asked_during(asked);
}

/// The state after a rebuild was asked for that many times during one.
pub open spec fn asked_during(start: Rebuild, asked: nat) -> Rebuild
    decreases asked,
{
    if asked == 0 {
        start
    } else {
        let before = asked_during(start, (asked - 1) as nat);
        if before.running {
            Rebuild { queued: true, ..before }
        } else {
            Rebuild { running: true, ..before }
        }
    }
}

proof fn lemma_asked_during(asked: nat)
    ensures
        asked_during(Rebuild { running: true, queued: false }, asked) == (Rebuild {
            running: true,
            queued: asked > 0,
        }),
    decreases asked,
{
    if asked > 0 {
        lemma_asked_during((asked - 1) as nat);
    }
}

/// The positions of the bars a change concerns: all, or the ones of one handle.
pub open spec fn concerned_positions(bars: Seq<Bar>, only: Option<isize>) -> Seq<usize>
    decreases bars.len(),
{
    if bars.len() == 0 {
        Seq::empty()
    } else {
        let rest = concerned_positions(bars.drop_last(), only);
        if only is None || only == Some(bars.last().hwnd) {
            rest.push((bars.len() - 1) as usize)
        } else {
            rest
        }
    }
}

impl BarState {
    /// The positions of the bars to draw: all of them, or just one.
    pub fn redraw_bars(&self, only: Option<isize>) -> (r: Vec<usize>)
        ensures
            r@ == concerned_positions(self.bars@, only),
    {
        let mut out: Vec<usize> = Vec::new();
        let mut i: usize = 0;
        while i < self.bars.len()
            invariant
                i <= self.bars@.len(),
                out@ == concerned_positions(self.bars@.take(i as int), only),
            decreases self.bars@.len() - i,
        {
            proof {
                assert(self.bars@.take(i + 1).drop_last() =~= self.bars@.take(i as int));
                assert(self.bars@.take(i + 1).last() == self.bars@[i as int]);
            }
            let wanted: bool = match only {
                None => true,
                Some(h) => h == self.bars[i].hwnd,
            };
            if wanted {
                out.push(i);
            }
            i = i + 1;
        }
        proof {
            assert(self.bars@.take(self.bars@.len() as int) =~= self.bars@);
        }
        out
    }

    /// What there is to draw on bar `i`.
    pub fn frame<'a>(&'a self, i: usize) -> (r: Frame<'a>)
        requires
            i < self.bars@.len(),
        ensures
            *r.bar == self.config.taskbar,
            r.clock@ == self.clock@,
            r.date@ == self.date@,
            r.dpi == self.bars@[i as int].dpi,
            *r.tasks == self.tasks,
            *r.layout == self.bars@[i as int].layout,
            r.active == self.active,
            *r.icons == self.icons,
            *r.pinned == self.pinned,
            tray_host::are_visible_items(r.tray@, self.tray.icons@, self.tray.pixels@),
            r.hovered == self.bars@[i as int].hovered,
    {
        let b = &self.bars[i];
        Frame {
            bar: &self.config.taskbar,
            clock: self.clock.as_str(),
            date: self.date.as_str(),
            dpi: b.dpi,
            tasks: &self.tasks,
            layout: &b.layout,
            active: self.active,
            icons: &self.icons,
            pinned: &self.pinned,
            tray: self.tray.items(),
            hovered: b.hovered,
        }
    }
}

/// A plain bar asks for no material, square corners and no frame; the others ask
/// for the transient or the main window's material, with round corners and the
/// frame over the whole window.
pub proof fn law_backdrops_ask_for_their_material(backdrop: Backdrop)
    ensures
        plan_of(backdrop).material == match backdrop {
            Backdrop::Plain => 1u32,
            Backdrop::Mica => 2,
            Backdrop::Acrylic => 3,
        },
        plan_of(backdrop).rounded <==> backdrop != Backdrop::Plain,
        plan_of(backdrop).margin == if backdrop == Backdrop::Plain {
            0int
        } else {
            -1
        },
{
}

/// A backdrop is pushed onto exactly the bars that carry another one, in order.
pub proof fn law_backdrops_go_where_they_are_missing(bars: Seq<Bar>, b: Bar, backdrop: Backdrop)
    ensures
        without_backdrop(Seq::empty(), backdrop).len() == 0,
        without_backdrop(bars.push(b), backdrop) == if b.applied_backdrop == backdrop {
            without_backdrop(bars, backdrop)
        } else {
            without_backdrop(bars, backdrop).push(b.hwnd)
        },
{
    assert(bars.push(b).drop_last() =~= bars);
    assert(bars.push(b).last() == b);
}

/// The bar of a monitor is the bar of a screen of its size, moved to where the
/// monitor is.
pub proof fn law_bars_move_with_their_monitor(
    placed: BarRect,
    local: BarRect,
    mon: (i32, i32, i32, i32),
    height: u32,
    margin: u32,
    dpi: u32,
)
    requires
        is_placed_bar(placed, mon, height, margin, dpi),
        layout::is_bar_rect(local, mon.2 as int, mon.3 as int, height, margin, dpi),
    ensures
        placed.x == mon.0 + local.x,
        placed.y == mon.1 + local.y,
        placed.w == local.w,
        placed.h == local.h,
{
}

/// A change concerns every bar, or the bars of one window, in order.
pub proof fn law_changes_concern_all_bars_or_one(bars: Seq<Bar>, b: Bar, only: Option<isize>)
    requires
        bars.len() < usize::MAX,
    ensures
        ({
            let wanted = only is None || (only->0) == b.hwnd;
            &&& concerned(Seq::empty(), only).len() == 0
            &&& concerned_positions(Seq::empty(), only).len() == 0
            &&& wanted ==> concerned(bars.push(b), only) == concerned(bars, only).push(b)
            &&& !wanted ==> concerned(bars.push(b), only) == concerned(bars, only)
            &&& wanted ==> concerned_positions(bars.push(b), only) == concerned_positions(
                bars,
                only,
            ).push(bars.len() as usize)
            &&& !wanted ==> concerned_positions(bars.push(b), only) == concerned_positions(
                bars,
                only,
            )
        }),
{
    assert(bars.push(b).drop_last() =~= bars);
    assert(bars.push(b).last() == b);
}

/// A refresh shows the windows that stayed, then those that came, each with its
/// handle and its title as it is now.
pub proof fn law_a_refresh_shows_the_merged_windows(
    before: Seq<TaskWindow>,
    fresh: Seq<TaskWindow>,
    after: Seq<TaskWindow>,
    i: int,
)
    requires
        is_merged(before, fresh, after),
        0 <= i < after.len(),
    ensures
        ({
            let stayed = tasks::survivors(before, fresh);
            let came = tasks::missing_from(fresh, before);
            &&& after.len() == stayed.len() + came.len()
            &&& i < stayed.len() ==> after[i].hwnd == stayed[i].hwnd && after[i].title@
                == stayed[i].title@
            &&& i >= stayed.len() ==> after[i].hwnd == came[i - stayed.len()].hwnd && after[i].title@
                == came[i - stayed.len()].title@
        }),
{
    let merged = tasks::survivors(before, fresh) + tasks::missing_from(fresh, before);
    assert(winlist::buttons(after).len() == after.len());
    assert(winlist::buttons(merged).len() == merged.len());
    assert(winlist::buttons(after)[i] == (after[i].hwnd, after[i].title@));
    assert(winlist::buttons(merged)[i] == (merged[i].hwnd, merged[i].title@));
}

/// Icons are stored and forgotten one by one: the last one stored for a window is
/// its icon, and a window that is gone has none.
pub proof fn law_icons_are_stored_window_by_window(
    icons: Map<isize, Option<Icon>>,
    fetched: Seq<(isize, Option<Icon>)>,
    next: (isize, Option<Icon>),
    removed: Seq<TaskWindow>,
    gone: TaskWindow,
)
    ensures
        icons_with(icons, Seq::empty()) == icons,
        icons_with(icons, fetched.push(next)) == icons_with(icons, fetched).insert(
            next.0,
            next.1,
        ),
        icons_without(icons, Seq::empty()) == icons,
        icons_without(icons, removed.push(gone)) == icons_without(icons, removed).remove(
            gone.hwnd,
        ),
{
    assert(fetched.push(next).drop_last() =~= fetched);
    assert(fetched.push(next).last() == next);
    assert(removed.push(gone).drop_last() =~= removed);
    assert(removed.push(gone).last() == gone);
}

/// A monitor has its own DPI where it could be had, the system's otherwise, and
/// never none.
pub proof fn law_a_monitor_has_a_dpi(own: Option<u32>, system: u32)
    ensures
        own is Some && (own->0) > 0 ==> monitor_dpi(own, system) == (own->0),
        (own is None || (own->0) == 0) && system > 0 ==> monitor_dpi(own, system) == system,
        (own is None || (own->0) == 0) && system == 0 ==> monitor_dpi(own, system) == 1,
{
}

/// A rebuild takes the menu and the old bars down before it makes new ones, and
/// only then aims events and the timer at them, shows the windows and re-reads the
/// configuration; nothing of that is done where no bar could be made.
pub proof fn law_a_rebuild_goes_in_order(ok: bool)
    ensures
        rebuild_next(RebuildStep::DropMenu, ok) == RebuildStep::DestroyBars,
        rebuild_next(RebuildStep::DestroyBars, ok) == RebuildStep::CreateBars,
        rebuild_next(RebuildStep::CreateBars, true) == RebuildStep::Retarget,
        rebuild_next(RebuildStep::CreateBars, false) == RebuildStep::Quit,
        rebuild_next(RebuildStep::Retarget, ok) == RebuildStep::AckRefresh,
        rebuild_next(RebuildStep::AckRefresh, ok) == RebuildStep::StartTimer,
        rebuild_next(RebuildStep::StartTimer, ok) == RebuildStep::ApplyBackdrop,
        rebuild_next(RebuildStep::ApplyBackdrop, ok) == RebuildStep::RefreshWindows,
        rebuild_next(RebuildStep::RefreshWindows, ok) == RebuildStep::Relayout,
        rebuild_next(RebuildStep::Relayout, ok) == RebuildStep::ReloadConfig,
        rebuild_next(RebuildStep::ReloadConfig, ok) == RebuildStep::Done,
        rebuild_next(RebuildStep::Done, ok) == RebuildStep::Done,
        rebuild_next(RebuildStep::Quit, ok) == RebuildStep::Quit,
{
}

} // verus!
