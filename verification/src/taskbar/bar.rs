//! The taskbar windows: what is on them, what the mouse does to them, and how
//! they follow the windows, the configuration and the monitors.
//!
//! Every step here only decides. Calls that can run a message loop (moving or
//! destroying a window, opening a menu, launching) are made between two steps,
//! so that a message that comes in meanwhile finds the state whole.
use vstd::prelude::*;

use std::collections::HashMap;

use crate::config::{Backdrop, Config};
use crate::geometry::{self, max_i32};
use crate::message;
use crate::taskbar::layout::{self, BarPlan, BarRect};
use crate::taskbar::menu::StartMenu;
use crate::taskbar::tasks::{Icon, TaskWindow};
use crate::taskbar::tray_host::{self, TrayHost, TrayPost};
use crate::taskbar::winlist;

verus! {

/// What a point on a bar belongs to.
#[derive(Debug, Clone, Copy, PartialEq, Eq, Structural)]
pub enum Hit {
    /// The Start button.
    Start,
    /// Pinned launcher `i`.
    Pinned(usize),
    /// The button of window `i`.
    Task(usize),
    /// The chip behind which the windows are that got no button.
    Overflow,
    /// Visible tray icon `i`.
    Tray(usize),
}

/// Where everything on a bar is, in bar-local physical pixels.
#[derive(Debug, PartialEq, Eq)]
pub struct BarLayout {
    pub start: BarRect,
    pub pinned: Vec<BarRect>,
    pub tasks: Vec<BarRect>,
    pub overflow: Option<BarRect>,
    pub tray: Vec<BarRect>,
}

impl BarLayout {
    /// What a point belongs to, from the Start button to the tray.
    pub open spec fn hit_at(&self, x: int, y: int) -> Option<Hit> {
        if self.start.covers(x, y) {
            Some(Hit::Start)
        } else if layout::first_rect(self.pinned@, x, y) is Some {
            Some(Hit::Pinned(layout::first_rect(self.pinned@, x, y)->0))
        } else if layout::first_rect(self.tasks@, x, y) is Some {
            Some(Hit::Task(layout::first_rect(self.tasks@, x, y)->0))
        } else if self.overflow matches Some(r) && r.covers(x, y) {
            Some(Hit::Overflow)
        } else if layout::first_rect(self.tray@, x, y) is Some {
            Some(Hit::Tray(layout::first_rect(self.tray@, x, y)->0))
        } else {
            None
        }
    }

    /// What a point belongs to.
    pub fn hit_test(&self, x: i32, y: i32) -> (r: Option<Hit>)
        ensures
            r == self.hit_at(x as int, y as int),
    {
        if self.start.contains(x, y) {
            return Some(Hit::Start);
        }
        if let Some(i) = layout::hit_test(self.pinned.as_slice(), x, y) {
            return Some(Hit::Pinned(i));
        }
        if let Some(i) = layout::hit_test(self.tasks.as_slice(), x, y) {
            return Some(Hit::Task(i));
        }
        if let Some(r) = self.overflow {
            if r.contains(x, y) {
                return Some(Hit::Overflow);
            }
        }
        if let Some(i) = layout::hit_test(self.tray.as_slice(), x, y) {
            return Some(Hit::Tray(i));
        }
        None
    }
}

/// What a bar of that size is to hold.
pub open spec fn plan(
    w: i32,
    h: i32,
    dpi: u32,
    pinned: int,
    tasks: int,
    tray: int,
) -> BarPlan {
    BarPlan { w: w as int, h: h as int, dpi, pinned, tasks, tray }
}

/// Whether a bar of that size with that many pinned apps, windows and tray icons
/// can be laid out.
pub open spec fn bar_layout_fits(
    w: i32,
    h: i32,
    dpi: u32,
    pinned: int,
    tasks: int,
    tray: int,
) -> bool {
    plan(w, h, dpi, pinned, tasks, tray).fits()
}

/// Whether `rects` are `count` rectangles of that size, `pitch` pixels from one
/// to the next.
pub open spec fn is_row(
    rects: Seq<BarRect>,
    left: int,
    top: int,
    pitch: int,
    w: int,
    h: int,
    count: int,
) -> bool {
    &&& rects.len() == count
    &&& forall|i: int|
        #![trigger rects[i]]
        0 <= i < rects.len() ==> rects[i].is_at(left + i * pitch, top, w, h)
}

/// Whether `l` is the layout of a bar with that plan.
pub open spec fn follows_plan(l: BarLayout, p: BarPlan) -> bool {
    let top = layout::at_dpi(layout::BUTTON_VPAD as int, p.dpi);
    &&& layout::is_start_rect(l.start, p.h, p.dpi)
    &&& is_row(
        l.pinned@,
        p.left(),
        top,
        p.pinned_pitch(),
        p.inner(),
        p.inner(),
        p.pinned_shown(),
    )
    &&& is_row(
        l.tasks@,
        p.tasks_left(),
        top,
        p.task_pitch(),
        p.task_width(),
        p.inner(),
        p.tasks_shown(),
    )
    &&& l.overflow is Some <==> p.overflows()
    &&& l.overflow matches Some(r) ==> r.is_at(p.tasks_end(), top, p.chip(), p.inner())
    &&& is_row(
        l.tray@,
        p.tray_left() + p.gap(),
        top,
        p.tray_pitch(),
        p.tray_cell(),
        p.inner(),
        p.tray_shown(),
    )
}

/// Whether `l` is the layout of such a bar: the Start button, the pinned chips,
/// the window buttons, the chip behind which the windows are that got none, and
/// the tray.
pub open spec fn is_bar_layout(
    l: BarLayout,
    w: i32,
    h: i32,
    dpi: u32,
    pinned: int,
    tasks: int,
    tray: int,
) -> bool {
    follows_plan(l, plan(w, h, dpi, pinned, tasks, tray))
}

/// Rectangles of one size in a row.
fn row(left: i64, top: i32, pitch: i64, w: i32, h: i32, count: usize) -> (r: Vec<BarRect>)
    requires
        0 <= pitch <= 0x2_0000_0000,
        count > 0 ==> geometry::is_i32(left as int),
        count > 0 ==> geometry::is_i32(left + (count - 1) * pitch),
    ensures
        is_row(r@, left as int, top as int, pitch as int, w as int, h as int, count as int),
{
    let mut rects: Vec<BarRect> = Vec::new();
    let mut i: usize = 0;
    let mut x: i64 = left;
    proof {
        assert(0 * pitch == 0) by (nonlinear_arith);
    }
    while i < count
        invariant
            0 <= pitch <= 0x2_0000_0000,
            count > 0 ==> geometry::is_i32(left as int),
            count > 0 ==> geometry::is_i32(left + (count - 1) * pitch),
            i <= count,
            x == left + i * pitch,
            is_row(rects@, left as int, top as int, pitch as int, w as int, h as int, i as int),
        decreases count - i,
    {
        proof {
            geometry::lemma_progression_between(left as int, pitch as int, i as int, count - 1);
            assert((i + 1) * pitch == i * pitch + pitch) by (nonlinear_arith);
        }
        rects.push(BarRect { x: x as i32, y: top, w, h });
        x = x + pitch;
        i = i + 1;
    }
    rects
}

/// Everything on a bar, from left to right.
pub open spec fn parts(l: BarLayout) -> Seq<BarRect> {
    seq![l.start] + l.pinned@ + l.tasks@ + (match l.overflow {
        Some(r) => seq![r],
        None => Seq::empty(),
    }) + l.tray@
}

/// Whether the rectangles stand in a row: each has an extent, and ends before the
/// next begins.
pub open spec fn in_a_row(rects: Seq<BarRect>) -> bool {
    &&& forall|i: int|
        0 <= i < rects.len() ==> (#[trigger] rects[i]).w >= 1 && rects[i].h >= 1
    &&& forall|i: int, j: int|
        0 <= i < j < rects.len() ==> (#[trigger] rects[i]).x + rects[i].w <= (
        #[trigger] rects[j]).x
}

/// Whether the rectangles stand in a row between `lo` and `hi`.
spec fn row_between(rects: Seq<BarRect>, lo: int, hi: int) -> bool {
    &&& in_a_row(rects)
    &&& forall|i: int|
        0 <= i < rects.len() ==> lo <= (#[trigger] rects[i]).x && rects[i].x + rects[i].w <= hi
}

proof fn lemma_rows_join(a: Seq<BarRect>, b: Seq<BarRect>, lo: int, mid: int, hi: int)
    requires
        row_between(a, lo, mid),
        row_between(b, mid, hi),
        lo <= mid <= hi,
    ensures
        row_between(a + b, lo, hi),
{
    let all = a + b;
    assert forall|i: int| 0 <= i < all.len() implies {
        &&& (#[trigger] all[i]).w >= 1
        &&& all[i].h >= 1
        &&& lo <= all[i].x
        &&& all[i].x + all[i].w <= hi
    } by {
        if i < a.len() {
            assert(all[i] == a[i]);
        } else {
            assert(all[i] == b[i - a.len()]);
        }
    }
    assert forall|i: int, j: int| 0 <= i < j < all.len() implies (#[trigger] all[i]).x + all[i].w
        <= (#[trigger] all[j]).x by {
        if j < a.len() {
            assert(all[i] == a[i] && all[j] == a[j]);
        } else if i < a.len() {
            assert(all[i] == a[i] && all[j] == b[j - a.len()]);
        } else {
            assert(all[i] == b[i - a.len()] && all[j] == b[j - a.len()]);
        }
    }
}

proof fn lemma_row_between(
    rects: Seq<BarRect>,
    left: int,
    top: int,
    pitch: int,
    w: int,
    h: int,
    count: int,
    hi: int,
)
    requires
        is_row(rects, left, top, pitch, w, h, count),
        count > 0 ==> 1 <= w <= pitch && 1 <= h,
        count > 0 ==> left + (count - 1) * pitch + w <= hi,
    ensures
        row_between(rects, left, hi),
{
    assert forall|i: int| 0 <= i < rects.len() implies left <= (#[trigger] rects[i]).x
        && rects[i].x + rects[i].w <= hi by {
        assert(0 <= i * pitch <= (count - 1) * pitch) by (nonlinear_arith)
            requires
                0 <= i < count,
                1 <= pitch,
        ;
    }
    assert forall|i: int, j: int| 0 <= i < j < rects.len() implies (#[trigger] rects[i]).x
        + rects[i].w <= (#[trigger] rects[j]).x by {
        assert(i * pitch + pitch <= j * pitch) by (nonlinear_arith)
            requires
                0 <= i < j,
                1 <= pitch,
        ;
    }
}

/// Everything on a bar stands in a row: the Start button, right of it the pinned
/// chips, right of those the window buttons, the overflow chip and the tray
/// cells, which end at the clock; so do the window buttons.
pub proof fn law_nothing_on_a_bar_overlaps(l: BarLayout, p: BarPlan)
    requires
        p.pinned >= 0,
        p.tasks >= 0,
        p.tray >= 0,
        follows_plan(l, p),
    ensures
        in_a_row(parts(l)),
        forall|i: int|
            0 <= i < l.tray@.len() ==> (#[trigger] l.tray@[i]).x + l.tray@[i].w <= p.right(),
        forall|i: int|
            0 <= i < l.tasks@.len() ==> (#[trigger] l.tasks@[i]).x + l.tasks@[i].w <= p.right(),
        forall|i: int, j: int, x: int, y: int|
            0 <= i < j < parts(l).len() && #[trigger] parts(l)[i].covers(x, y)
                ==> !#[trigger] parts(l)[j].covers(x, y),
{
    layout::lemma_bar_plan(p);
    layout::lemma_small_lengths_scale(layout::EDGE_PAD as int, p.dpi);
    let top = layout::at_dpi(layout::BUTTON_VPAD as int, p.dpi);
    let chip = match l.overflow {
        Some(r) => seq![r],
        None => Seq::empty(),
    };
    let start = seq![l.start];
    assert(row_between(start, l.start.x as int, p.left()));
    assert(p.pinned_shown() > 0 ==> p.left() + (p.pinned_shown() - 1) * p.pinned_pitch() + p.inner()
        <= p.tasks_left()) by (nonlinear_arith)
        requires
            p.tasks_left() == p.left() + p.pinned_shown() * p.pinned_pitch(),
            p.pinned_pitch() == p.inner() + p.gap(),
            p.gap() >= 0,
    ;
    lemma_row_between(
        l.pinned@,
        p.left(),
        top,
        p.pinned_pitch(),
        p.inner(),
        p.inner(),
        p.pinned_shown(),
        p.tasks_left(),
    );
    lemma_rows_join(start, l.pinned@, l.start.x as int, p.left(), p.tasks_left());
    assert(p.tasks_shown() > 0 ==> p.tasks_left() + (p.tasks_shown() - 1) * p.task_pitch()
        + p.task_width() == p.tasks_end() - p.gap()) by (nonlinear_arith)
        requires
            p.tasks_end() == p.tasks_left() + p.tasks_shown() * p.task_pitch(),
            p.task_pitch() == p.task_width() + p.gap(),
    ;
    let hi = if l.overflow is Some {
        p.tasks_end() + p.chip()
    } else if p.tasks_shown() > 0 {
        p.tasks_end() - p.gap()
    } else {
        p.tasks_left()
    };
    let tasks_hi = if l.overflow is Some {
        p.tasks_end()
    } else {
        hi
    };
    lemma_row_between(
        l.tasks@,
        p.tasks_left(),
        top,
        p.task_pitch(),
        p.task_width(),
        p.inner(),
        p.tasks_shown(),
        tasks_hi,
    );
    assert(row_between(chip, tasks_hi, hi));
    assert(p.tasks_left() <= tasks_hi <= hi) by {
        if p.tasks_shown() > 0 && l.overflow is None {
            assert((p.tasks_shown() - 1) * p.task_pitch() >= 0) by (nonlinear_arith)
                requires
                    p.tasks_shown() > 0,
                    p.task_pitch() >= 0,
            ;
        }
    }
    let before = start + l.pinned@;
    lemma_rows_join(before, l.tasks@, l.start.x as int, p.tasks_left(), tasks_hi);
    lemma_rows_join(before + l.tasks@, chip, l.start.x as int, tasks_hi, hi);
    assert(p.tray_shown() > 0 ==> p.tray_left() + p.gap() + (p.tray_shown() - 1) * p.tray_pitch()
        + p.tray_cell() == p.right()) by (nonlinear_arith)
        requires
            p.tray_left() == p.right() - p.tray_shown() * p.tray_pitch(),
            p.tray_pitch() == p.tray_cell() + p.gap(),
    ;
    lemma_row_between(
        l.tray@,
        p.tray_left() + p.gap(),
        top,
        p.tray_pitch(),
        p.tray_cell(),
        p.inner(),
        p.tray_shown(),
        p.right(),
    );
    let rest = before + l.tasks@ + chip;
    if p.tray_shown() > 0 {
        assert(hi <= p.tray_left());
        assert(row_between(l.tray@, hi, p.right()));
        assert(hi <= p.right());
        lemma_rows_join(rest, l.tray@, l.start.x as int, hi, p.right());
    } else {
        assert(parts(l) =~= rest);
    }
}

/// A point on a pinned chip, a window button, the overflow chip or a tray cell
/// belongs to that one.
pub proof fn law_every_part_can_be_hit(l: BarLayout, p: BarPlan, x: int, y: int)
    requires
        p.pinned >= 0,
        p.tasks >= 0,
        p.tray >= 0,
        follows_plan(l, p),
        l.pinned@.len() <= usize::MAX,
        l.tasks@.len() <= usize::MAX,
        l.tray@.len() <= usize::MAX,
    ensures
        l.start.covers(x, y) ==> l.hit_at(x, y) == Some(Hit::Start),
        forall|i: int|
            0 <= i < l.pinned@.len() && (#[trigger] l.pinned@[i]).covers(x, y) ==> l.hit_at(x, y)
                == Some(Hit::Pinned(i as usize)),
        forall|i: int|
            0 <= i < l.tasks@.len() && (#[trigger] l.tasks@[i]).covers(x, y) ==> l.hit_at(x, y)
                == Some(Hit::Task(i as usize)),
        l.overflow matches Some(r) && r.covers(x, y) ==> l.hit_at(x, y) == Some(Hit::Overflow),
        forall|i: int|
            0 <= i < l.tray@.len() && (#[trigger] l.tray@[i]).covers(x, y) ==> l.hit_at(x, y)
                == Some(Hit::Tray(i as usize)),
{
    law_nothing_on_a_bar_overlaps(l, p);
    layout::lemma_first_rect(l.pinned@, x, y);
    layout::lemma_first_rect(l.tasks@, x, y);
    layout::lemma_first_rect(l.tray@, x, y);
    let all = parts(l);
    let tasks_at = 1 + l.pinned@.len();
    let chip_at = tasks_at + l.tasks@.len();
    let tray_at = chip_at + if l.overflow is Some {
        1int
    } else {
        0
    };
    assert(all[0] == l.start);
    assert forall|i: int| 0 <= i < l.pinned@.len() implies all[1 + i] == #[trigger] l.pinned@[i] by {
    }
    assert forall|i: int| 0 <= i < l.tasks@.len() implies all[tasks_at + i]
        == #[trigger] l.tasks@[i] by {}
    assert(l.overflow matches Some(r) ==> all[chip_at as int] == r);
    assert forall|i: int| 0 <= i < l.tray@.len() implies all[tray_at + i] == #[trigger] l.tray@[i] by {
    }
    let hit = l.hit_at(x, y);
    let at = match hit {
        Some(Hit::Start) => 0,
        Some(Hit::Pinned(i)) => 1 + i,
        Some(Hit::Task(i)) => tasks_at + i,
        Some(Hit::Overflow) => chip_at as int,
        Some(Hit::Tray(i)) => tray_at + i,
        None => -1,
    };
    if hit is Some {
        assert(0 <= at < all.len() && all[at].covers(x, y));
    }
}

/// Where a bar holds no pinned app and no tray icon and every window has a
/// button, the buttons are those of a bar that has nothing else.
pub proof fn law_a_plain_bar_is_start_and_buttons(l: BarLayout, p: BarPlan)
    requires
        p.tasks >= 0,
        p.pinned == 0,
        p.tray == 0,
        follows_plan(l, p),
        l.overflow is None,
    ensures
        layout::is_button_row(l.tasks@, p.w, p.h, p.tasks, p.dpi),
        l.tasks@.len() == p.tasks,
        parts(l) == seq![l.start] + l.tasks@,
{
    layout::lemma_bar_plan(p);
    assert(parts(l) =~= seq![l.start] + l.tasks@);
}

/// How a bar is shared out.
struct Shares {
    start: BarRect,
    top: i32,
    gap: i64,
    left: i64,
    right: i64,
    /// Width of the overflow chip and of a tray cell.
    chip: i32,
    cell: i32,
    kept: i64,
    pinned: usize,
    pinned_w: i64,
    tray: usize,
    tray_w: i64,
}

impl Shares {
    /// Whether these are the shares of a plan.
    spec fn are_of(self, p: BarPlan) -> bool {
        &&& layout::is_start_rect(self.start, p.h, p.dpi)
        &&& self.top == layout::at_dpi(layout::BUTTON_VPAD as int, p.dpi)
        &&& self.gap == p.gap()
        &&& self.left == p.left()
        &&& self.right == p.right()
        &&& self.chip == p.chip()
        &&& self.cell == p.tray_cell()
        &&& self.kept == p.kept()
        &&& self.pinned == p.pinned_shown()
        &&& self.pinned_w == p.pinned_width()
        &&& self.tray == p.tray_shown()
        &&& self.tray_w == p.tray_width()
        &&& 0 <= self.gap <= 0x7fff_ffff
        &&& 0 <= self.pinned_w <= 0x8_0000_0000
        &&& 0 <= self.tray_w <= 0x8_0000_0000
        &&& -0x8_0000_0000 <= self.left <= 0x8_0000_0000
        &&& -0x8_0000_0000 <= self.right <= 0x8_0000_0000
    }
}

/// Share a bar out.
fn share_out(w: i32, h: i32, dpi: u32, pinned: usize, tasks: usize, tray: usize) -> (r: Shares)
    requires
        layout::start_fits(h as int, dpi),
    ensures
        r.are_of(plan(w, h, dpi, pinned as int, tasks as int, tray as int)),
{
    let ghost p = plan(w, h, dpi, pinned as int, tasks as int, tray as int);
    proof {
        layout::lemma_bar_plan(p);
    }
    let gap: i64 = layout::scale(layout::BUTTON_GAP, dpi) as i64;
    let start = layout::start_rect(h, dpi);
    let left: i64 = start.x as i64 + start.w as i64 + gap;
    let right: i64 = w as i64 - layout::scale(layout::CLOCK_RESERVE, dpi) as i64;
    let chip: i32 = max_i32(layout::scale(layout::OVERFLOW_W, dpi), 1);
    let cell: i32 = max_i32(layout::scale(layout::TRAY_CELL_W, dpi), 1);
    let kept: i64 = if tasks > 0 {
        chip as i64 + gap
    } else {
        0
    };
    let room: i64 = right - left - kept;
    let (pinned_shown, pinned_w) = layout::count_cells(room, start.w as i64 + gap, pinned);
    proof {
        layout::lemma_cells_in(room as int, p.pinned_pitch(), pinned as int);
    }
    let (tray_shown, tray_w) = layout::count_cells(room - pinned_w, cell as i64 + gap, tray);
    proof {
        layout::lemma_cells_in(room - pinned_w, p.tray_pitch(), tray as int);
    }
    Shares {
        start,
        top: layout::scale(layout::BUTTON_VPAD, dpi),
        gap,
        left,
        right,
        chip,
        cell,
        kept,
        pinned: pinned_shown,
        pinned_w,
        tray: tray_shown,
        tray_w,
    }
}

/// The window buttons of a bar, and the chip behind which the windows are that
/// got none.
fn task_parts(
    w: i32,
    h: i32,
    dpi: u32,
    tasks: usize,
    s: &Shares,
    Ghost(p): Ghost<BarPlan>,
) -> (r: (Vec<BarRect>, Option<BarRect>))
    requires
        p.fits(),
        p.w == w,
        p.h == h,
        p.dpi == dpi,
        p.tasks == tasks,
        p.pinned >= 0,
        p.tray >= 0,
        s.are_of(p),
    ensures
        is_row(
            r.0@,
            p.tasks_left(),
            s.top as int,
            p.task_pitch(),
            p.task_width(),
            p.inner(),
            p.tasks_shown(),
        ),
        r.1 is Some <==> p.overflows(),
        r.1 matches Some(c) ==> c.is_at(p.tasks_end(), s.top as int, p.chip(), p.inner()),
{
    proof {
        layout::lemma_bar_plan(p);
    }
    if tasks == 0 {
        return (Vec::new(), None);
    }
    let left: i64 = s.left + s.pinned_w;
    let shared: i64 = w as i64 - s.pinned_w - s.tray_w;
    let mut buttons = layout::button_rects(shared as i32, h, tasks, dpi);
    let overflows: bool = buttons.len() < tasks;
    if overflows {
        buttons = layout::button_rects((shared - s.kept) as i32, h, tasks, dpi);
    }
    let shown: usize = buttons.len();
    if shown == 0 {
        let chip = if overflows {
            Some(BarRect { x: left as i32, y: s.top, w: s.chip, h: s.start.h })
        } else {
            None
        };
        return (Vec::new(), chip);
    }
    let width: i32 = buttons[0].w;
    let pitch: i64 = width as i64 + s.gap;
    proof {
        assert(buttons@[0].w == p.task_width());
        lemma_last_of(shown as int, pitch as int);
    }
    let rects = row(left, s.top, pitch, width, s.start.h, shown);
    let chip = if overflows {
        let end: i64 = rects[shown - 1].x as i64 + pitch;
        Some(BarRect { x: end as i32, y: s.top, w: s.chip, h: s.start.h })
    } else {
        None
    };
    (rects, chip)
}

/// The last of some cells begins one pitch before their end.
proof fn lemma_last_of(count: int, pitch: int)
    requires
        count >= 1,
        pitch >= 0,
    ensures
        (count - 1) * pitch == count * pitch - pitch,
        0 <= (count - 1) * pitch,
{
    assert((count - 1) * pitch == count * pitch - pitch) by (nonlinear_arith);
    assert(0 <= (count - 1) * pitch) by (nonlinear_arith)
        requires
            count >= 1,
            pitch >= 0,
    ;
}

/// Lay a bar out: the Start button, the pinned chips, as many window buttons as
/// fit before the tray, the chip behind which the others are, and the tray
/// before the clock.
pub fn bar_layout(
    w: i32,
    h: i32,
    dpi: u32,
    pinned: usize,
    tasks: usize,
    tray: usize,
) -> (r: BarLayout)
    requires
        bar_layout_fits(w, h, dpi, pinned as int, tasks as int, tray as int),
    ensures
        is_bar_layout(r, w, h, dpi, pinned as int, tasks as int, tray as int),
        r.pinned@.len() <= pinned,
        r.tasks@.len() <= tasks,
        r.tray@.len() <= tray,
        in_a_row(parts(r)),
        forall|i: int|
            0 <= i < r.tray@.len() ==> (#[trigger] r.tray@[i]).x + r.tray@[i].w <= w
                - layout::at_dpi(layout::CLOCK_RESERVE as int, dpi),
        r.overflow is Some <==> r.tasks@.len() < tasks,
        pinned == 0 && tray == 0 && r.overflow is None ==> layout::is_button_row(
            r.tasks@,
            w as int,
            h as int,
            tasks as int,
            dpi,
        ),
{
    let ghost p = plan(w, h, dpi, pinned as int, tasks as int, tray as int);
    proof {
        layout::lemma_bar_plan(p);
    }
    let s = share_out(w, h, dpi, pinned, tasks, tray);
    let (task_rects, overflow) = task_parts(w, h, dpi, tasks, &s, Ghost(p));
    let side: i32 = s.start.w;
    proof {
        if s.pinned > 0 {
            lemma_last_of(s.pinned as int, p.pinned_pitch());
        }
        if s.tray > 0 {
            lemma_last_of(s.tray as int, p.tray_pitch());
        }
    }
    let r = BarLayout {
        start: s.start,
        pinned: row(s.left, s.top, side as i64 + s.gap, side, side, s.pinned),
        tasks: task_rects,
        overflow,
        tray: row(
            s.right - s.tray_w + s.gap,
            s.top,
            s.cell as i64 + s.gap,
            s.cell,
            side,
            s.tray,
        ),
    };
    proof {
        law_nothing_on_a_bar_overlaps(r, p);
        if pinned == 0 && tray == 0 && r.overflow is None {
            law_a_plain_bar_is_start_and_buttons(r, p);
        }
    }
    r
}

/// One bar window on one monitor.
pub struct Bar {
    /// The window handle.
    pub hwnd: isize,
    pub dpi: u32,
    /// The monitor: x, y, width and height in virtual-screen pixels.
    pub mon: (i32, i32, i32, i32),
    pub layout: BarLayout,
    /// What the mouse is over on this bar.
    pub hovered: Option<Hit>,
    /// Whether a request to be told of the mouse leaving is armed.
    pub mouse_tracking: bool,
    /// The backdrop this window carries. Fresh windows carry none, so the
    /// default configuration never touches the compositor.
    pub applied_backdrop: Backdrop,
}

impl Bar {
    /// A fresh bar window.
    pub fn new(hwnd: isize, dpi: u32, mon: (i32, i32, i32, i32), layout: BarLayout) -> (r: Self)
        ensures
            r == (Bar {
                hwnd,
                dpi,
                mon,
                layout,
                hovered: None,
                mouse_tracking: false,
                applied_backdrop: Backdrop::Plain,
            }),
    {
        Bar {
            hwnd,
            dpi,
            mon,
            layout,
            hovered: None,
            mouse_tracking: false,
            applied_backdrop: Backdrop::Plain,
        }
    }
}

/// The bar with that window: the first, of which there is one.
pub open spec fn bar_of(bars: Seq<Bar>, hwnd: isize) -> Option<int>
    decreases bars.len(),
{
    if bars.len() == 0 {
        None
    } else {
        match bar_of(bars.drop_last(), hwnd) {
            Some(i) => Some(i),
            None => if bars.last().hwnd == hwnd {
                Some(bars.len() - 1)
            } else {
                None
            },
        }
    }
}

/// `bar_of` finds the first bar with a handle, where there is one.
pub proof fn lemma_bar_of(bars: Seq<Bar>, hwnd: isize)
    ensures
        match bar_of(bars, hwnd) {
            Some(i) => {
                &&& 0 <= i < bars.len()
                &&& bars[i].hwnd == hwnd
                &&& forall|j: int| 0 <= j < i ==> (#[trigger] bars[j]).hwnd != hwnd
            },
            None => forall|j: int| 0 <= j < bars.len() ==> (#[trigger] bars[j]).hwnd != hwnd,
        },
    decreases bars.len(),
{
    if bars.len() > 0 {
        let init = bars.drop_last();
        lemma_bar_of(init, hwnd);
        assert forall|j: int| 0 <= j < bars.len() - 1 implies #[trigger] bars[j] == init[j] by {}
    }
}

/// The position of the bar with that window.
fn find_bar(bars: &Vec<Bar>, hwnd: isize) -> (r: Option<usize>)
    ensures
        match r {
            Some(i) => bar_of(bars@, hwnd) == Some(i as int) && i < bars@.len(),
            None => bar_of(bars@, hwnd) is None,
        },
{
    proof {
        lemma_bar_of(bars@, hwnd);
    }
    let mut i: usize = 0;
    while i < bars.len()
        invariant
            i <= bars@.len(),
            forall|j: int| 0 <= j < i ==> (#[trigger] bars@[j]).hwnd != hwnd,
        decreases bars@.len() - i,
    {
        if bars[i].hwnd == hwnd {
            proof {
                lemma_bar_of(bars@, hwnd);
            }
            return Some(i);
        }
        i = i + 1;
    }
    proof {
        lemma_bar_of(bars@, hwnd);
    }
    None
}

/// The state behind the bars.
pub struct BarState {
    pub config: Config,
    /// Topmost only in a swapped session; otherwise the stock taskbar is there
    /// and must not be sat on.
    pub topmost: bool,
    pub clock: String,
    /// Second clock line; empty where the date is off.
    pub date: String,
    /// Taskbar-worthy windows in stable button order, shared by all bars.
    pub tasks: Vec<TaskWindow>,
    /// Foreground window handle (0 for none).
    pub active: isize,
    /// Decoded icons per window; `Some(None)` remembers "asked, has none".
    pub icons: HashMap<isize, Option<Icon>>,
    /// Pinned launchers in config order, with their decoded icons.
    pub pinned: Vec<(String, Option<Icon>)>,
    pub tray: TrayHost,
    /// The start menu; `None` until first opened.
    pub menu: Option<StartMenu>,
    pub bars: Vec<Bar>,
    /// Id of the registered message that announces a changed configuration.
    pub config_changed_msg: u32,
    /// Log the next successful draw.
    pub log_next_paint: bool,
}

impl BarState {
    /// The state at startup. Tray icons are hosted in a swapped session only,
    /// which is where the bars are topmost, and where the host window could be
    /// made.
    pub fn new(
        config: Config,
        topmost: bool,
        tray_host_made: bool,
        pinned: Vec<(String, Option<Icon>)>,
        bars: Vec<Bar>,
        config_changed_msg: u32,
    ) -> (r: Self)
        ensures
            r.config == config,
            r.topmost == topmost,
            r.clock@.len() == 0,
            r.date@.len() == 0,
            r.tasks@.len() == 0,
            r.active == 0,
            r.icons@ == Map::<isize, Option<Icon>>::empty(),
            r.pinned == pinned,
            r.tray.hosting == (topmost && tray_host_made),
            r.tray.icons@.len() == 0,
            r.tray.pixels@.len() == 0,
            r.menu is None,
            r.bars == bars,
            r.config_changed_msg == config_changed_msg,
            r.log_next_paint,
    {
        BarState {
            config,
            topmost,
            clock: String::new(),
            date: String::new(),
            tasks: Vec::new(),
            active: 0,
            icons: HashMap::new(),
            pinned,
            tray: TrayHost::new(topmost && tray_host_made),
            menu: None,
            bars,
            config_changed_msg,
            log_next_paint: true,
        }
    }
}

/// What a left click on a bar does.
#[derive(Debug, PartialEq, Eq)]
pub enum BarClick {
    Nothing,
    /// Toggle the start menu.
    Start,
    /// Launch a pinned shortcut.
    Launch(String),
    /// Activate, minimise or restore a window.
    Activate(isize),
    /// Show the menu of the windows without a button, at this bar-local point.
    Overflow { items: Vec<(isize, String)>, x: i32, y: i32 },
}

/// The windows that got no button: those after the first `shown`.
pub open spec fn overflowing(tasks: Seq<TaskWindow>, shown: int) -> Seq<(isize, Seq<char>)> {
    winlist::buttons(tasks.skip(geometry::min_of(shown, tasks.len() as int)))
}

/// The entries of an overflow menu as handles and titles.
pub open spec fn menu_items(items: Seq<(isize, String)>) -> Seq<(isize, Seq<char>)> {
    items.map_values(|item: (isize, String)| (item.0, item.1@))
}

/// No window is lost: the windows with a button and those behind the overflow
/// chip are all windows, in order, and the chip is there exactly where something
/// is behind it.
pub proof fn law_no_window_is_lost(tasks: Seq<TaskWindow>, l: BarLayout, p: BarPlan)
    requires
        p.pinned >= 0,
        p.tasks == tasks.len(),
        p.tray >= 0,
        follows_plan(l, p),
    ensures
        winlist::buttons(tasks) == winlist::buttons(tasks.take(l.tasks@.len() as int))
            + overflowing(tasks, l.tasks@.len() as int),
        l.overflow is Some <==> overflowing(tasks, l.tasks@.len() as int).len() > 0,
{
    layout::lemma_bar_plan(p);
    let shown = l.tasks@.len() as int;
    assert(winlist::buttons(tasks) =~= winlist::buttons(tasks.take(shown)) + overflowing(
        tasks,
        shown,
    ));
}

/// Whether `click` is what a click on `hit` does.
pub open spec fn is_click_on(
    click: BarClick,
    st: BarState,
    bar: Bar,
    hit: Option<Hit>,
    x: i32,
    y: i32,
) -> bool {
    match hit {
        Some(Hit::Start) => click is Start,
        Some(Hit::Pinned(i)) => if i < st.pinned@.len() {
            click matches BarClick::Launch(path) && path@ == st.pinned@[i as int].0@
        } else {
            click is Nothing
        },
        Some(Hit::Task(i)) => if i < st.tasks@.len() {
            click == BarClick::Activate(st.tasks@[i as int].hwnd)
        } else {
            click is Nothing
        },
        Some(Hit::Overflow) => {
            &&& click matches BarClick::Overflow { items, x: at_x, y: at_y }
            &&& menu_items(items@) == overflowing(st.tasks@, bar.layout.tasks@.len() as int)
            &&& match bar.layout.overflow {
                Some(r) => at_x == r.x && at_y == r.y,
                None => at_x == x && at_y == y,
            }
        },
        // Tray clicks are forwarded as they are.
        Some(Hit::Tray(_)) => click is Nothing,
        None => click is Nothing,
    }
}

/// The windows after the first `shown`, as entries of an overflow menu.
fn overflow_items(tasks: &Vec<TaskWindow>, shown: usize) -> (r: Vec<(isize, String)>)
    ensures
        menu_items(r@) == overflowing(tasks@, shown as int),
{
    let from: usize = if shown <= tasks.len() {
        shown
    } else {
        tasks.len()
    };
    let mut items: Vec<(isize, String)> = Vec::new();
    let mut i: usize = from;
    let ghost rest = tasks@.skip(from as int);
    while i < tasks.len()
        invariant
            from <= i <= tasks@.len(),
            rest == tasks@.skip(from as int),
            menu_items(items@) == winlist::buttons(rest.take(i - from)),
        decreases tasks@.len() - i,
    {
        let ghost before = items@;
        items.push((tasks[i].hwnd, tasks[i].title.clone()));
        proof {
            assert(rest.take(i + 1 - from) =~= rest.take(i - from).push(tasks@[i as int]));
            let item = (tasks@[i as int].hwnd, tasks@[i as int].title@);
            assert(menu_items(items@) =~= menu_items(before).push(item));
            assert(winlist::buttons(rest.take(i + 1 - from)) =~= winlist::buttons(
                rest.take(i - from),
            ).push(item));
        }
        i = i + 1;
    }
    proof {
        assert(rest.take(rest.len() as int) =~= rest);
    }
    items
}

impl BarState {
    /// A left click landed on a bar, at a bar-local point.
    pub fn on_click(&self, hwnd: isize, x: i32, y: i32) -> (r: BarClick)
        ensures
            match bar_of(self.bars@, hwnd) {
                Some(i) => is_click_on(
                    r,
                    *self,
                    self.bars@[i],
                    self.bars@[i].layout.hit_at(x as int, y as int),
                    x,
                    y,
                ),
                None => r is Nothing,
            },
    {
        let bar = match find_bar(&self.bars, hwnd) {
            Some(i) => &self.bars[i],
            None => {
                return BarClick::Nothing;
            },
        };
        match bar.layout.hit_test(x, y) {
            Some(Hit::Start) => BarClick::Start,
            Some(Hit::Pinned(i)) => if i < self.pinned.len() {
                BarClick::Launch(self.pinned[i].0.clone())
            } else {
                BarClick::Nothing
            },
            Some(Hit::Task(i)) => if i < self.tasks.len() {
                BarClick::Activate(self.tasks[i].hwnd)
            } else {
                BarClick::Nothing
            },
            Some(Hit::Overflow) => {
                let items = overflow_items(&self.tasks, bar.layout.tasks.len());
                match bar.layout.overflow {
                    Some(r) => BarClick::Overflow { items, x: r.x, y: r.y },
                    None => BarClick::Overflow { items, x, y },
                }
            },
            Some(Hit::Tray(_)) => BarClick::Nothing,
            None => BarClick::Nothing,
        }
    }

    /// A mouse message on a bar, at a bar-local point: what to post to the owner
    /// of the tray icon there, if there is one. `screen_x` and `screen_y` are the
    /// same point on the screen.
    pub fn forward_tray_mouse(
        &self,
        hwnd: isize,
        x: i32,
        y: i32,
        msg: u32,
        screen_x: i32,
        screen_y: i32,
    ) -> (r: Option<TrayPost>)
        ensures
            ({
                let cell = match bar_of(self.bars@, hwnd) {
                    Some(i) => match self.bars@[i].layout.hit_at(x as int, y as int) {
                        Some(Hit::Tray(n)) => tray_host::visible_at(
                            self.tray.icons@,
                            n as int,
                        ),
                        _ => None,
                    },
                    None => None,
                };
                match cell {
                    Some(p) => {
                        let icon = self.tray.icons@[p];
                        &&& r is Some <==> icon.callback != 0
                        &&& r matches Some(post) ==> tray_host::is_post(
                            post,
                            icon,
                            msg,
                            screen_x,
                            screen_y,
                        )
                    },
                    None => r is None,
                }
            }),
    {
        let i: usize = match find_bar(&self.bars, hwnd) {
            Some(i) => i,
            None => {
                return None;
            },
        };
        match self.bars[i].layout.hit_test(x, y) {
            Some(Hit::Tray(n)) => self.tray.forward_tray_mouse(n, msg, screen_x, screen_y),
            _ => None,
        }
    }

    /// Everything but the bars is as it was in `before`.
    pub open spec fn same_but_bars(&self, before: &BarState) -> bool {
        *self == (BarState { bars: self.bars, ..*before })
    }

    /// The mouse is at a point of a bar: whether to redraw that bar, and whether
    /// to ask to be told when the mouse leaves it.
    pub fn on_mouse_move(&mut self, hwnd: isize, x: i32, y: i32) -> (r: (bool, bool))
        ensures
            final(self).same_but_bars(old(self)),
            match bar_of(old(self).bars@, hwnd) {
                Some(i) => {
                    let before = old(self).bars@[i];
                    let hit = before.layout.hit_at(x as int, y as int);
                    &&& final(self).bars@ == old(self).bars@.update(
                        i,
                        Bar { hovered: hit, mouse_tracking: true, ..before },
                    )
                    &&& r == (hit != before.hovered, !before.mouse_tracking)
                },
                None => final(self).bars@ == old(self).bars@ && r == (false, false),
            },
    {
        let i: usize = match find_bar(&self.bars, hwnd) {
            Some(i) => i,
            None => {
                return (false, false);
            },
        };
        let hovered = self.bars[i].layout.hit_test(x, y);
        let changed: bool = hovered != self.bars[i].hovered;
        let arm: bool = !self.bars[i].mouse_tracking;
        self.bars[i].hovered = hovered;
        self.bars[i].mouse_tracking = true;
        (changed, arm)
    }

    /// The system would not tell when the mouse leaves a bar: ask again on the
    /// next move.
    pub fn tracking_failed(&mut self, hwnd: isize)
        ensures
            final(self).same_but_bars(old(self)),
            match bar_of(old(self).bars@, hwnd) {
                Some(i) => final(self).bars@ == old(self).bars@.update(
                    i,
                    Bar { mouse_tracking: false, ..old(self).bars@[i] },
                ),
                None => final(self).bars@ == old(self).bars@,
            },
    {
        if let Some(i) = find_bar(&self.bars, hwnd) {
            self.bars[i].mouse_tracking = false;
        }
    }

    /// The mouse left a bar: whether to redraw it.
    pub fn on_mouse_leave(&mut self, hwnd: isize) -> (r: bool)
        ensures
            final(self).same_but_bars(old(self)),
            match bar_of(old(self).bars@, hwnd) {
                Some(i) => {
                    &&& final(self).bars@ == old(self).bars@.update(
                        i,
                        Bar { hovered: None, mouse_tracking: false, ..old(self).bars@[i] },
                    )
                    &&& r == (old(self).bars@[i].hovered is Some)
                },
                None => final(self).bars@ == old(self).bars@ && !r,
            },
    {
        let i: usize = match find_bar(&self.bars, hwnd) {
            Some(i) => i,
            None => {
                return false;
            },
        };
        let had: bool = self.bars[i].hovered.is_some();
        self.bars[i].hovered = None;
        self.bars[i].mouse_tracking = false;
        had
    }

    /// A bar's monitor has another DPI: whether the bar is to be laid out anew.
    /// The other bars are left alone.
    pub fn on_dpi_changed(&mut self, hwnd: isize, dpi: u32) -> (r: bool)
        ensures
            final(self).same_but_bars(old(self)),
            match bar_of(old(self).bars@, hwnd) {
                Some(i) => {
                    &&& final(self).bars@ == old(self).bars@.update(
                        i,
                        Bar { dpi, ..old(self).bars@[i] },
                    )
                    &&& r == (old(self).bars@[i].dpi != dpi)
                },
                None => final(self).bars@ == old(self).bars@ && !r,
            },
    {
        match find_bar(&self.bars, hwnd) {
            Some(i) => if self.bars[i].dpi != dpi {
                self.bars[i].dpi = dpi;
                true
            } else {
                proof {
                    assert(self.bars@ =~= self.bars@.update(
                        i as int,
                        Bar { dpi, ..self.bars@[i as int] },
                    ));
                }
                false
            },
            None => false,
        }
    }

    /// Whether a window that is destroyed is a live bar, which is what ends the
    /// program. Windows taken down on purpose are no longer, or were never, in
    /// the set.
    pub fn is_live_bar(&self, hwnd: isize) -> (r: bool)
        ensures
            r == (bar_of(self.bars@, hwnd) is Some),
    {
        find_bar(&self.bars, hwnd).is_some()
    }
}

/// Window messages the bars answer.
pub const WM_DESTROY: u32 = 0x0002;
pub const WM_DISPLAYCHANGE: u32 = 0x007e;
pub const WM_TIMER: u32 = 0x0113;
pub const WM_MOUSEMOVE: u32 = 0x0200;
pub const WM_MOUSELEAVE: u32 = 0x02a3;
pub const WM_DPICHANGED: u32 = 0x02e0;

/// The timer that ticks for the clock.
pub const CLOCK_TIMER: usize = 1;

/// What a message asks of a bar window.
#[derive(Debug, Clone, Copy, PartialEq, Eq, Structural)]
pub enum BarEvent {
    ConfigChanged,
    /// The window population may have changed.
    WindowsChanged,
    /// A left click, which tray icons are told of too.
    LeftDown(i32, i32),
    /// Another button message, which only tray icons care about.
    Button(i32, i32),
    MouseMove(i32, i32),
    MouseLeave,
    Tick,
    DisplayChanged,
    /// The window's monitor has this DPI now.
    DpiChanged(u32),
    Destroyed,
    /// Left to the default procedure.
    Other,
}

/// What a message asks for. The configuration message is registered at run time,
/// so its id comes along; 0 is no id.
pub open spec fn bar_event(msg: u32, wparam: usize, lparam: isize, config_msg: u32) -> BarEvent {
    let x = message::signed(message::low(lparam as int)) as i32;
    let y = message::signed(message::high(lparam as int)) as i32;
    if msg == config_msg && msg != 0 {
        BarEvent::ConfigChanged
    } else if msg == winlist::WM_WINDOWS_CHANGED {
        BarEvent::WindowsChanged
    } else if msg == tray_host::WM_LBUTTONDOWN {
        BarEvent::LeftDown(x, y)
    } else if msg == tray_host::WM_LBUTTONUP || msg == tray_host::WM_RBUTTONDOWN || msg
        == tray_host::WM_RBUTTONUP {
        BarEvent::Button(x, y)
    } else if msg == WM_MOUSEMOVE {
        BarEvent::MouseMove(x, y)
    } else if msg == WM_MOUSELEAVE {
        BarEvent::MouseLeave
    } else if msg == WM_TIMER && wparam == CLOCK_TIMER {
        BarEvent::Tick
    } else if msg == WM_DISPLAYCHANGE {
        BarEvent::DisplayChanged
    } else if msg == WM_DPICHANGED {
        BarEvent::DpiChanged(geometry::max_of(message::low(wparam as int), 1) as u32)
    } else if msg == WM_DESTROY {
        BarEvent::Destroyed
    } else {
        BarEvent::Other
    }
}

/// Sort a message to a bar and read its parameters.
pub fn wndproc(msg: u32, wparam: usize, lparam: isize, config_msg: u32) -> (r: BarEvent)
    ensures
        r == bar_event(msg, wparam, lparam, config_msg),
{
    if msg == config_msg && msg != 0 {
        return BarEvent::ConfigChanged;
    }
    let x: i32 = message::mouse_x(lparam);
    let y: i32 = message::mouse_y(lparam);
    if msg == winlist::WM_WINDOWS_CHANGED {
        BarEvent::WindowsChanged
    } else if msg == tray_host::WM_LBUTTONDOWN {
        BarEvent::LeftDown(x, y)
    } else if msg == tray_host::WM_LBUTTONUP || msg == tray_host::WM_RBUTTONDOWN || msg
        == tray_host::WM_RBUTTONUP {
        BarEvent::Button(x, y)
    } else if msg == WM_MOUSEMOVE {
        BarEvent::MouseMove(x, y)
    } else if msg == WM_MOUSELEAVE {
        BarEvent::MouseLeave
    } else if msg == WM_TIMER && wparam == CLOCK_TIMER {
        BarEvent::Tick
    } else if msg == WM_DISPLAYCHANGE {
        BarEvent::DisplayChanged
    } else if msg == WM_DPICHANGED {
        let dpi: u32 = message::word_of(wparam);
        BarEvent::DpiChanged(
            if dpi >= 1 {
                dpi
            } else {
                1
            },
        )
    } else if msg == WM_DESTROY {
        BarEvent::Destroyed
    } else {
        BarEvent::Other
    }
}

/// How a bar is shared out, in pixels. Everything is as high as the Start square
/// and a gap apart. Pinned chips are squares right of it, as many as there is room
/// for; tray cells end at the clock, as many as there is room for beside those.
/// The window buttons take what is left, as the buttons of a bar that has nothing
/// else would; the overflow chip follows the last of them, where some window has
/// none.
pub proof fn law_a_bar_shares_its_width(l: BarLayout, p: BarPlan)
    requires
        p.pinned >= 0,
        p.tasks >= 0,
        p.tray >= 0,
        2 <= p.dpi <= 9_600,
        follows_plan(l, p),
    ensures
        ({
            let gap = (6 * p.dpi + 48) / 96;
            let chip = (28 * p.dpi + 48) / 96;
            let cell = (24 * p.dpi + 48) / 96;
            let least = (48 * p.dpi + 48) / 96;
            let most = (180 * p.dpi + 48) / 96;
            let side = l.start.w as int;
            let top = l.start.y as int;
            let left = l.start.x + side + gap;
            let right = p.w - (88 * p.dpi + 48) / 96;
            let kept = if p.tasks > 0 {
                chip + gap
            } else {
                0
            };
            let pinned_w = l.pinned@.len() * (side + gap);
            let tray_w = l.tray@.len() * (cell + gap);
            let tasks_left = left + pinned_w;
            let shared = right - tray_w - tasks_left;
            let room = if l.overflow is Some {
                shared - kept
            } else {
                shared
            };
            let n = l.tasks@.len() as int;
            let w = l.tasks@[0].w as int;
            &&& l.start.h == side
            &&& l.pinned@.len() <= p.pinned
            &&& l.pinned@.len() == p.pinned || (l.pinned@.len() + 1) * (side + gap) > right - left
                - kept
            &&& forall|i: int|
                0 <= i < l.pinned@.len() ==> (#[trigger] l.pinned@[i]).is_at(
                    left + i * (side + gap),
                    top,
                    side,
                    side,
                )
            &&& l.tray@.len() <= p.tray
            &&& l.tray@.len() == p.tray || (l.tray@.len() + 1) * (cell + gap) > right - left - kept
                - pinned_w
            &&& forall|i: int|
                0 <= i < l.tray@.len() ==> (#[trigger] l.tray@[i]).is_at(
                    right - tray_w + gap + i * (cell + gap),
                    top,
                    cell as int,
                    side,
                )
            &&& l.overflow is None <==> p.tasks == 0 || p.tasks * (least + gap) - gap <= shared
            &&& l.overflow is None ==> n == p.tasks
            &&& n == p.tasks && n > 0 ==> {
                &&& least <= w <= most
                &&& n * (w + gap) - gap <= room
                &&& w == most || n * (w + 1 + gap) - gap > room
            }
            &&& n < p.tasks ==> {
                &&& n > 0 ==> w == least && n * (least + gap) - gap <= room
                &&& (n + 1) * (least + gap) - gap > room
            }
            &&& forall|i: int|
                0 <= i < n ==> (#[trigger] l.tasks@[i]).is_at(
                    tasks_left + i * (w + gap),
                    top,
                    w,
                    side,
                )
            &&& l.overflow matches Some(r) ==> r.is_at(
                tasks_left + if n > 0 {
                    n * (w + gap)
                } else {
                    0
                },
                top,
                chip as int,
                side,
            )
        }),
{
    let dpi = p.dpi;
    layout::lemma_bar_plan(p);
    layout::lemma_ordinary_lengths_scale(layout::BUTTON_GAP as int, dpi);
    layout::lemma_ordinary_lengths_scale(layout::OVERFLOW_W as int, dpi);
    layout::lemma_ordinary_lengths_scale(layout::TRAY_CELL_W as int, dpi);
    layout::lemma_ordinary_lengths_scale(layout::CLOCK_RESERVE as int, dpi);
    let gap = p.gap();
    assert(gap == (6 * dpi + 48) / 96);
    assert(p.chip() == (28 * dpi + 48) / 96);
    assert(p.tray_cell() == (24 * dpi + 48) / 96);
    assert(p.right() == p.w - (88 * dpi + 48) / 96);
    assert(p.left() == l.start.x + l.start.w + gap);
    let room = p.right() - p.left() - p.kept();
    layout::law_cells_fill_their_room(room, p.pinned_pitch(), p.pinned);
    layout::law_cells_fill_their_room(room - p.pinned_width(), p.tray_pitch(), p.tray);
    if p.tasks > 0 {
        layout::lemma_buttons_share(p.shared_w(), p.h, p.tasks, dpi);
        layout::lemma_buttons_share(p.tasks_w(), p.h, p.tasks, dpi);
        assert(layout::buttons_room(p.shared_w(), p.h, dpi) == p.right() - p.tray_width()
            - p.tasks_left());
        if l.tasks@.len() > 0 {
            assert(l.tasks@[0].w == p.task_width());
        } else {
            assert(p.tasks_shown() * p.task_pitch() == 0) by (nonlinear_arith)
                requires
                    p.tasks_shown() == 0,
            ;
        }
    }
}

/// What is hit is under the mouse: a part that is hit covers the point, and
/// nothing is hit where no part does.
pub proof fn law_only_what_is_under_the_mouse_is_hit(l: BarLayout, x: int, y: int)
    requires
        l.pinned@.len() <= usize::MAX,
        l.tasks@.len() <= usize::MAX,
        l.tray@.len() <= usize::MAX,
    ensures
        match l.hit_at(x, y) {
            Some(Hit::Start) => l.start.covers(x, y),
            Some(Hit::Pinned(i)) => i < l.pinned@.len() && l.pinned@[i as int].covers(x, y),
            Some(Hit::Task(i)) => i < l.tasks@.len() && l.tasks@[i as int].covers(x, y),
            Some(Hit::Overflow) => l.overflow is Some && (l.overflow->0).covers(x, y),
            Some(Hit::Tray(i)) => i < l.tray@.len() && l.tray@[i as int].covers(x, y),
            None => forall|k: int| 0 <= k < parts(l).len() ==> !(#[trigger] parts(l)[k]).covers(x, y),
        },
{
    layout::lemma_first_rect(l.pinned@, x, y);
    layout::lemma_first_rect(l.tasks@, x, y);
    layout::lemma_first_rect(l.tray@, x, y);
    let all = parts(l);
    let chip = match l.overflow {
        Some(r) => seq![r],
        None => Seq::empty(),
    };
    if l.hit_at(x, y) is None {
        assert forall|k: int| 0 <= k < all.len() implies !(#[trigger] all[k]).covers(x, y) by {
            let a = 1 + l.pinned@.len();
            let b = a + l.tasks@.len();
            let c = b + chip.len();
            if k == 0 {
                assert(all[k] == l.start);
            } else if k < a {
                assert(all[k] == l.pinned@[k - 1]);
            } else if k < b {
                assert(all[k] == l.tasks@[k - a]);
            } else if k < c {
                assert(all[k] == chip[k - b]);
            } else {
                assert(all[k] == l.tray@[k - c]);
            }
        }
    }
}

/// A click on a pinned chip launches that app, one on a button activates that
/// window, and one on the overflow chip offers, right there, every window without
/// a button and no other, in order.
pub proof fn law_clicks_do_what_is_under_them(
    click: BarClick,
    st: BarState,
    bar: Bar,
    hit: Option<Hit>,
    x: i32,
    y: i32,
)
    requires
        is_click_on(click, st, bar, hit, x, y),
    ensures
        hit == Some(Hit::Start) <==> click is Start,
        match hit {
            Some(Hit::Pinned(i)) => if i < st.pinned@.len() {
                click matches BarClick::Launch(path) && path@ == st.pinned@[i as int].0@
            } else {
                click is Nothing
            },
            Some(Hit::Task(i)) => if i < st.tasks@.len() {
                click matches BarClick::Activate(hwnd) && hwnd == st.tasks@[i as int].hwnd
            } else {
                click is Nothing
            },
            _ => !(click is Launch) && !(click is Activate),
        },
        hit == Some(Hit::Overflow) <==> click is Overflow,
        click matches BarClick::Overflow { items, x: at_x, y: at_y } ==> {
            let shown = bar.layout.tasks@.len();
            &&& shown <= st.tasks@.len() ==> items@.len() == st.tasks@.len() - shown
            &&& shown > st.tasks@.len() ==> items@.len() == 0
            &&& forall|k: int|
                0 <= k < items@.len() ==> (#[trigger] items@[k]).0 == st.tasks@[shown + k].hwnd
                    && items@[k].1@ == st.tasks@[shown + k].title@
            &&& bar.layout.overflow matches Some(r) ==> at_x == r.x && at_y == r.y
            &&& bar.layout.overflow is None ==> at_x == x && at_y == y
        },
{
    if let BarClick::Overflow { items, x: at_x, y: at_y } = click {
        let shown = bar.layout.tasks@.len() as int;
        let rest = overflowing(st.tasks@, shown);
        assert(menu_items(items@).len() == items@.len());
        assert forall|k: int| 0 <= k < items@.len() implies (#[trigger] items@[k]).0 == st.tasks@[
            shown + k].hwnd && items@[k].1@ == st.tasks@[shown + k].title@ by {
            assert(menu_items(items@)[k] == (items@[k].0, items@[k].1@));
            assert(rest[k] == (st.tasks@[shown + k].hwnd, st.tasks@[shown + k].title@));
        }
    }
}

/// The messages by their numbers. The registered one that announces a changed
/// configuration goes before them, where it has a number; coordinates are the two
/// signed words of the second parameter, and a DPI the low word of the first.
pub proof fn law_bar_messages_are_told_by_number(
    msg: u32,
    wparam: usize,
    lparam: isize,
    config_msg: u32,
)
    ensures
        ({
            let e = bar_event(msg, wparam, lparam, config_msg);
            let x = message::signed(message::low(lparam as int));
            let y = message::signed(message::high(lparam as int));
            let own = msg == config_msg && msg != 0;
            &&& own <==> e == BarEvent::ConfigChanged
            &&& !own && msg == 0x201 ==> (e matches BarEvent::LeftDown(a, b) && a == x && b == y)
            &&& !own && (msg == 0x202 || msg == 0x204 || msg == 0x205) ==> (
            e matches BarEvent::Button(a, b) && a == x && b == y)
            &&& !own && msg == 0x200 ==> (e matches BarEvent::MouseMove(a, b) && a == x && b == y)
            &&& !own && msg == 0x2a3 ==> e == BarEvent::MouseLeave
            &&& !own && msg == 0x113 ==> e == if wparam == 1 {
                BarEvent::Tick
            } else {
                BarEvent::Other
            }
            &&& !own && msg == 0x7e ==> e == BarEvent::DisplayChanged
            &&& !own && msg == 0x2e0 ==> (e matches BarEvent::DpiChanged(d) && d == if wparam as int
                % 65536 == 0 {
                1
            } else {
                wparam as int % 65536
            })
            &&& !own && msg == 2 ==> e == BarEvent::Destroyed
            &&& e == BarEvent::WindowsChanged <==> !own && msg == winlist::WM_WINDOWS_CHANGED
        }),
{
}

/// The messages the bar answers by the numbers the system gives them, and its
/// timer.
pub proof fn law_the_bar_knows_the_systems_numbers()
    ensures
        WM_DESTROY == 0x0002,
        WM_DISPLAYCHANGE == 0x007e,
        WM_TIMER == 0x0113,
        WM_MOUSEMOVE == 0x0200,
        WM_MOUSELEAVE == 0x02a3,
        WM_DPICHANGED == 0x02e0,
        CLOCK_TIMER == 1,
{
}

/// The first bar with a window's handle is that window's bar.
pub proof fn law_a_window_has_the_first_bar_of_its_handle(bars: Seq<Bar>, b: Bar, hwnd: isize)
    ensures
        bar_of(Seq::empty(), hwnd) is None,
        bar_of(bars, hwnd) is Some ==> bar_of(bars.push(b), hwnd) == bar_of(bars, hwnd),
        bar_of(bars, hwnd) is None && b.hwnd == hwnd ==> bar_of(bars.push(b), hwnd) == Some(
            bars.len() as int,
        ),
        bar_of(bars, hwnd) is None && b.hwnd != hwnd ==> bar_of(bars.push(b), hwnd) is None,
{
    assert(bars.push(b).drop_last() =~= bars);
    assert(bars.push(b).last() == b);
}

/// A bar is laid out by its own size and DPI, and by how many launchers, windows
/// and icons there are.
pub proof fn law_a_bar_is_planned_by_what_it_holds(
    l: BarLayout,
    w: i32,
    h: i32,
    dpi: u32,
    pinned: int,
    tasks: int,
    tray: int,
)
    ensures
        is_bar_layout(l, w, h, dpi, pinned, tasks, tray) <==> follows_plan(
            l,
            BarPlan { w: w as int, h: h as int, dpi, pinned, tasks, tray },
        ),
{
}

/// Where only the bars change, everything else of the state is as it was.
pub proof fn law_only_the_bars_change(a: BarState, b: BarState)
    requires
        a.same_but_bars(&b),
    ensures
        a.config == b.config,
        a.topmost == b.topmost,
        a.clock == b.clock,
        a.date == b.date,
        a.tasks == b.tasks,
        a.active == b.active,
        a.icons == b.icons,
        a.pinned == b.pinned,
        a.tray == b.tray,
        a.menu == b.menu,
        a.config_changed_msg == b.config_changed_msg,
        a.log_next_paint == b.log_next_paint,
{
}

} // verus!
