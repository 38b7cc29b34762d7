//! The start menu: where its window sits, where the search box and each
//! visible row sit inside it, the scrollbar, hit-testing, and the keyboard and
//! wheel state machine.
use vstd::prelude::*;

use crate::geometry::{self, max_i32, min_i32};
use crate::taskbar::layout::{self, scale, BarRect};
use crate::text;

verus! {

broadcast use vstd::arithmetic::mul::lemma_mul_is_commutative;

/// Menu window size at 96 DPI; height shrinks to fit above the bar.
pub const MENU_W: u32 = 360;
pub const MENU_MAX_H: u32 = 520;
/// Gap between the menu's bottom edge and the bar's top edge.
pub const GAP_ABOVE_BAR: u32 = 8;
/// Inner padding on every side.
pub const PAD: u32 = 10;
pub const SEARCH_H: u32 = 34;
pub const ROW_H: u32 = 32;
pub const ROW_GAP: u32 = 2;
pub const SCROLLBAR_W: u32 = 4;
/// Minimum scrollbar-thumb height, so it stays grabbable-looking on huge lists.
pub const THUMB_MIN_H: u32 = 24;

/// The bottom edge of the menu: one gap above the bar.
pub open spec fn menu_bottom(bar: BarRect, dpi: u32) -> int {
    bar.y - layout::at_dpi(GAP_ABOVE_BAR as int, dpi)
}

/// The width of the menu: its nominal width, or the monitor's if that is less.
pub open spec fn menu_width(mon_w: int, dpi: u32) -> int {
    geometry::min_of(layout::at_dpi(MENU_W as int, dpi), geometry::max_of(mon_w, 1))
}

/// The height of the menu: its nominal height, or the room above the bar if
/// that is less.
pub open spec fn menu_height(mon_y: int, bar: BarRect, dpi: u32) -> int {
    geometry::min_of(
        layout::at_dpi(MENU_MAX_H as int, dpi),
        geometry::max_of(menu_bottom(bar, dpi) - mon_y, 1),
    )
}

/// Whether `r` is the menu window of such a bar: left-aligned with it, pulled
/// left to end on the monitor, but never left of it.
pub open spec fn is_menu_rect(
    r: BarRect,
    mon: (i32, i32, i32, i32),
    bar: BarRect,
    dpi: u32,
) -> bool {
    let w = menu_width(mon.2 as int, dpi);
    let h = menu_height(mon.1 as int, bar, dpi);
    r.is_at(
        geometry::max_of(geometry::min_of(bar.x as int, mon.0 + mon.2 - w), mon.0 as int),
        menu_bottom(bar, dpi) - h,
        w,
        h,
    )
}

/// The quantities of a menu rectangle are representable.
pub open spec fn menu_rect_fits(mon: (i32, i32, i32, i32), bar: BarRect, dpi: u32) -> bool {
    let w = menu_width(mon.2 as int, dpi);
    let h = menu_height(mon.1 as int, bar, dpi);
    &&& geometry::is_i32(menu_bottom(bar, dpi))
    &&& geometry::is_i32(menu_bottom(bar, dpi) - mon.1)
    &&& geometry::is_i32(mon.0 + mon.2)
    &&& geometry::is_i32(mon.0 + mon.2 - w)
    &&& geometry::is_i32(menu_bottom(bar, dpi) - h)
}

/// Where the menu window sits on screen: above the bar, left-aligned with it,
/// clamped to the monitor. `mon` is (x, y, w, h) in virtual-screen pixels;
/// `bar` is the bar window's screen rect.
pub fn menu_rect(mon: (i32, i32, i32, i32), bar: BarRect, dpi: u32) -> (r: BarRect)
    requires
        menu_rect_fits(mon, bar, dpi),
    ensures
        is_menu_rect(r, mon, bar, dpi),
{
    let mon_x: i32 = mon.0;
    let mon_y: i32 = mon.1;
    let mon_w: i32 = mon.2;
    let gap: i32 = scale(GAP_ABOVE_BAR, dpi);
    let w: i32 = min_i32(scale(MENU_W, dpi), max_i32(mon_w, 1));
    let bottom: i32 = bar.y - gap;
    let h: i32 = min_i32(scale(MENU_MAX_H, dpi), max_i32(bottom - mon_y, 1));
    let x: i32 = max_i32(min_i32(bar.x, mon_x + mon_w - w), mon_x);
    BarRect { x, y: bottom - h, w, h }
}

/// The menu ends one gap above the bar, never starts left of the monitor, is
/// never wider than it, and never reaches above it where there is any room.
pub proof fn law_menu_stays_on_the_monitor(
    r: BarRect,
    mon: (i32, i32, i32, i32),
    bar: BarRect,
    dpi: u32,
)
    requires
        is_menu_rect(r, mon, bar, dpi),
        mon.2 >= 1,
    ensures
        r.y + r.h == bar.y - layout::at_dpi(GAP_ABOVE_BAR as int, dpi),
        r.x >= mon.0,
        r.w <= mon.2,
        r.x + r.w <= mon.0 + mon.2,
        menu_bottom(bar, dpi) > mon.1 ==> r.y >= mon.1,
        mon.0 <= bar.x && bar.x + r.w <= mon.0 + mon.2 ==> r.x == bar.x,
{
}

/// Everything inside the menu window, in menu-local physical pixels, for the
/// current filtered-list length and scroll offset.
#[derive(Debug, Clone, PartialEq, Eq)]
pub struct MenuLayout {
    /// The type-to-search box at the top.
    pub search: BarRect,
    /// Visible rows: (index into the *filtered* list, rect), top to bottom.
    pub rows: Vec<(usize, BarRect)>,
    /// Scrollbar thumb at the right edge, present only when rows overflow.
    pub scrollbar: Option<BarRect>,
    /// How many rows fit: the page size for wheel and ensure-visible math.
    pub fit: usize,
}

/// Width of the search box, and of the rows where nothing overflows.
pub open spec fn search_width(w: int, dpi: u32) -> int {
    geometry::max_of(w - 2 * layout::at_dpi(PAD as int, dpi), 1)
}

/// Top of the first row: below the search box, with one pad above and below.
pub open spec fn rows_top(dpi: u32) -> int {
    layout::at_dpi(PAD as int, dpi) + layout::extent(SEARCH_H as int, dpi) + layout::at_dpi(
        PAD as int,
        dpi,
    )
}

/// Bottom of the row area: one pad above the bottom of the menu.
pub open spec fn rows_bottom(h: int, dpi: u32) -> int {
    h - layout::at_dpi(PAD as int, dpi)
}

/// The distance from the top of one row to the top of the next.
pub open spec fn row_pitch(dpi: u32) -> int {
    layout::extent(ROW_H as int, dpi) + layout::at_dpi(ROW_GAP as int, dpi)
}

/// How many whole rows fit in the row area.
pub open spec fn rows_that_fit(h: int, dpi: u32) -> int {
    if rows_bottom(h, dpi) <= rows_top(dpi) {
        0
    } else {
        (rows_bottom(h, dpi) - rows_top(dpi) + layout::at_dpi(ROW_GAP as int, dpi)) / row_pitch(dpi)
    }
}

/// The scroll offset in force: no further than shows the last page.
pub open spec fn scroll_in_force(fit: int, count: int, scroll: int) -> int {
    geometry::min_of(scroll, geometry::max_of(count - fit, 0))
}

/// Whether there are more rows than fit, and room for at least one.
pub open spec fn rows_overflow(fit: int, count: int) -> bool {
    count > fit && fit > 0
}

/// Width of a row: the search box's, less the scrollbar where rows overflow.
pub open spec fn row_width(w: int, dpi: u32, overflow: bool) -> int {
    if overflow {
        geometry::max_of(
            search_width(w, dpi) - layout::extent(SCROLLBAR_W as int, dpi) - layout::at_dpi(
                ROW_GAP as int,
                dpi,
            ),
            1,
        )
    } else {
        search_width(w, dpi)
    }
}

/// Height of the scrollbar's track.
pub open spec fn track_height(h: int, dpi: u32) -> int {
    rows_bottom(h, dpi) - rows_top(dpi)
}

/// Height of the thumb: the visible share of the track, at least the minimum,
/// at most the track.
pub open spec fn thumb_height(h: int, dpi: u32, fit: int, count: int) -> int {
    geometry::min_of(
        geometry::max_of(
            track_height(h, dpi) * fit / count,
            layout::extent(THUMB_MIN_H as int, dpi),
        ),
        track_height(h, dpi),
    )
}

/// Top of the thumb: as far down its travel as the list is scrolled.
pub open spec fn thumb_top(h: int, dpi: u32, fit: int, count: int, scroll: int) -> int {
    rows_top(dpi) + (track_height(h, dpi) - thumb_height(h, dpi, fit, count)) * scroll_in_force(
        fit,
        count,
        scroll,
    ) / (count - fit)
}

/// How many rows are shown.
pub open spec fn rows_shown(fit: int, count: int, scroll: int) -> int {
    geometry::min_of(fit, count - scroll_in_force(fit, count, scroll))
}

impl MenuLayout {
    /// Whether this is the layout of a `w` by `h` menu at `dpi` over `count`
    /// filtered items, scrolled to `scroll`.
    pub open spec fn is_layout_of(
        &self,
        w: int,
        h: int,
        dpi: u32,
        count: int,
        scroll: int,
    ) -> bool {
        let pad = layout::at_dpi(PAD as int, dpi);
        let fit = rows_that_fit(h, dpi);
        let overflow = rows_overflow(fit, count);
        let row_w = row_width(w, dpi, overflow);
        &&& self.search.is_at(
            pad,
            pad,
            search_width(w, dpi),
            layout::extent(SEARCH_H as int, dpi),
        )
        &&& self.fit == fit
        &&& self.rows@.len() == rows_shown(fit, count, scroll)
        &&& forall|i: int|
            #![trigger self.rows@[i]]
            0 <= i < self.rows@.len() ==> {
                &&& self.rows@[i].0 == scroll_in_force(fit, count, scroll) + i
                &&& self.rows@[i].1.is_at(
                    pad,
                    rows_top(dpi) + i * row_pitch(dpi),
                    row_w,
                    layout::extent(ROW_H as int, dpi),
                )
            }
        &&& self.scrollbar is Some <==> overflow
        &&& self.scrollbar matches Some(thumb) ==> thumb.is_at(
            pad + row_w + layout::at_dpi(ROW_GAP as int, dpi),
            thumb_top(h, dpi, fit, count, scroll),
            layout::extent(SCROLLBAR_W as int, dpi),
            thumb_height(h, dpi, fit, count),
        )
    }

    /// The item whose row is the first to cover the point.
    pub open spec fn item_at(&self, x: int, y: int) -> Option<usize> {
        let rects = self.rows@.map_values(|row: (usize, BarRect)| row.1);
        match layout::first_rect(rects, x, y) {
            Some(i) => Some(self.rows@[i as int].0),
            None => None,
        }
    }

    /// The filtered-list index of the row under a menu-local point.
    pub fn hit_row(&self, x: i32, y: i32) -> (r: Option<usize>)
        ensures
            r == self.item_at(x as int, y as int),
    {
        let ghost rects = self.rows@.map_values(|row: (usize, BarRect)| row.1);
        let mut i: usize = 0;
        while i < self.rows.len()
            invariant
                i <= self.rows.len(),
                rects == self.rows@.map_values(|row: (usize, BarRect)| row.1),
                forall|j: int|
                    0 <= j < i ==> !(#[trigger] rects[j]).covers(x as int, y as int),
            decreases self.rows.len() - i,
        {
            let (item, rect) = self.rows[i];
            if rect.contains(x, y) {
                proof {
                    layout::lemma_first_rect(rects, x as int, y as int);
                    assert(rects[i as int].covers(x as int, y as int));
                }
                return Some(item);
            }
            i = i + 1;
        }
        proof {
            layout::lemma_first_rect(rects, x as int, y as int);
        }
        None
    }
}

/// The quantities of a menu layout are representable.
pub open spec fn menu_layout_fits(w: int, h: int, dpi: u32, count: int, scroll: int) -> bool {
    let pad = layout::at_dpi(PAD as int, dpi);
    let fit = rows_that_fit(h, dpi);
    &&& geometry::is_i32(w - 2 * pad)
    &&& geometry::is_i32(pad + layout::extent(SEARCH_H as int, dpi))
    &&& geometry::is_i32(rows_top(dpi))
    &&& geometry::is_i32(rows_bottom(h, dpi))
    &&& rows_bottom(h, dpi) > rows_top(dpi) ==> geometry::is_i32(
        track_height(h, dpi) + layout::at_dpi(ROW_GAP as int, dpi),
    )
    &&& rows_overflow(fit, count) ==> {
        &&& count <= i64::MAX
        &&& (track_height(h, dpi) - thumb_height(h, dpi, fit, count)) * scroll_in_force(
            fit,
            count,
            scroll,
        ) <= i64::MAX
    }
}

/// Sizes at a DPI that the row arithmetic relies on.
proof fn lemma_row_metrics(dpi: u32)
    ensures
        0 <= layout::at_dpi(PAD as int, dpi) <= 500_000_000,
        0 <= layout::at_dpi(ROW_GAP as int, dpi) <= 100_000_000,
        1 <= layout::extent(ROW_H as int, dpi) <= 1_500_000_000,
        1 <= layout::extent(SCROLLBAR_W as int, dpi) <= 200_000_000,
        1 <= layout::extent(SEARCH_H as int, dpi),
        0 <= layout::at_dpi(THUMB_MIN_H as int, dpi),
{
    layout::lemma_small_lengths_scale(PAD as int, dpi);
    layout::lemma_small_lengths_scale(ROW_GAP as int, dpi);
    layout::lemma_small_lengths_scale(ROW_H as int, dpi);
    layout::lemma_small_lengths_scale(SCROLLBAR_W as int, dpi);
    layout::lemma_small_lengths_scale(THUMB_MIN_H as int, dpi);
}

/// No more rows fit than there are pixels in their area.
pub proof fn lemma_rows_that_fit(h: int, dpi: u32)
    requires
        rows_bottom(h, dpi) > rows_top(dpi) ==> geometry::is_i32(
            track_height(h, dpi) + layout::at_dpi(ROW_GAP as int, dpi),
        ),
    ensures
        0 <= rows_that_fit(h, dpi) <= i32::MAX,
{
    lemma_row_metrics(dpi);
    let room = track_height(h, dpi) + layout::at_dpi(ROW_GAP as int, dpi);
    let step = row_pitch(dpi);
    if rows_bottom(h, dpi) > rows_top(dpi) {
        assert(0 <= room / step <= room) by (nonlinear_arith)
            requires
                step > 0,
                room >= 0,
        ;
    }
}

/// The last row that fits ends at or above the bottom of the row area.
proof fn lemma_rows_end_in_area(h: int, dpi: u32, i: int)
    requires
        0 <= i < rows_that_fit(h, dpi),
    ensures
        0 <= i * row_pitch(dpi),
        rows_top(dpi) + i * row_pitch(dpi) + layout::extent(ROW_H as int, dpi) <= rows_bottom(
            h,
            dpi,
        ),
        rows_bottom(h, dpi) > rows_top(dpi),
{
    lemma_row_metrics(dpi);
    let room = track_height(h, dpi) + layout::at_dpi(ROW_GAP as int, dpi);
    let step = row_pitch(dpi);
    let fit = rows_that_fit(h, dpi);
    assert(fit * step <= room) by (nonlinear_arith)
        requires
            fit == room / step,
            step > 0,
            room >= 0,
    ;
    assert(0 <= i * step && i * step + step <= fit * step) by (nonlinear_arith)
        requires
            0 <= i < fit,
            step > 0,
    ;
}

/// The thumb is no taller than its track, and travels no further than it.
pub proof fn lemma_thumb_in_track(h: int, dpi: u32, fit: int, count: int, scroll: int)
    requires
        fit == rows_that_fit(h, dpi),
        rows_overflow(fit, count),
        0 <= scroll,
    ensures
        rows_bottom(h, dpi) > rows_top(dpi),
        0 <= track_height(h, dpi) * fit / count <= track_height(h, dpi),
        0 <= thumb_height(h, dpi, fit, count) <= track_height(h, dpi),
        rows_top(dpi) <= thumb_top(h, dpi, fit, count, scroll),
        thumb_top(h, dpi, fit, count, scroll) + thumb_height(h, dpi, fit, count) <= rows_bottom(
            h,
            dpi,
        ),
        scroll_in_force(fit, count, scroll) == 0 ==> thumb_top(h, dpi, fit, count, scroll)
            == rows_top(dpi),
        scroll_in_force(fit, count, scroll) == count - fit ==> thumb_top(
            h,
            dpi,
            fit,
            count,
            scroll,
        ) + thumb_height(h, dpi, fit, count) == rows_bottom(h, dpi),
{
    lemma_row_metrics(dpi);
    let track = track_height(h, dpi);
    assert(0 <= track * fit / count <= track) by (nonlinear_arith)
        requires
            track > 0,
            0 < fit < count,
    {
        assert(0 <= track * fit <= track * count);
    }
    let travel = track - thumb_height(h, dpi, fit, count);
    let span = count - fit;
    let pos = scroll_in_force(fit, count, scroll);
    assert(0 <= travel * pos / span <= travel) by (nonlinear_arith)
        requires
            0 <= travel,
            0 <= pos <= span,
            0 < span,
    {
        assert(0 <= travel * pos <= travel * span);
    }
    if pos == 0 {
        assert(travel * pos / span == 0) by (nonlinear_arith)
            requires
                pos == 0,
                0 < span,
        ;
    }
    if pos == span {
        assert(travel * pos / span == travel) by (nonlinear_arith)
            requires
                pos == span,
                0 < span,
        ;
    }
}

/// Lay the menu out. Degenerate sizes produce empty-but-valid layouts, never
/// zero-extent rects.
pub fn menu_layout(w: i32, h: i32, dpi: u32, count: usize, scroll: usize) -> (l: MenuLayout)
    requires
        menu_layout_fits(w as int, h as int, dpi, count as int, scroll as int),
    ensures
        l.is_layout_of(w as int, h as int, dpi, count as int, scroll as int),
{
    proof {
        lemma_row_metrics(dpi);
    }
    let pad: i32 = scale(PAD, dpi);
    let search = BarRect {
        x: pad,
        y: pad,
        w: max_i32(w - 2 * pad, 1),
        h: max_i32(scale(SEARCH_H, dpi), 1),
    };
    let row_h: i32 = max_i32(scale(ROW_H, dpi), 1);
    let row_gap: i32 = scale(ROW_GAP, dpi);
    let top: i32 = search.y + search.h + pad;
    let bottom: i32 = h - pad;
    let fit: usize = if bottom <= top {
        0
    } else {
        proof {
            let room = bottom - top + row_gap;
            let step = row_h + row_gap;
            assert(0 <= room / step <= room) by (nonlinear_arith)
                requires
                    room >= 0,
                    step >= 1,
            ;
        }
        ((bottom - top + row_gap) / (row_h + row_gap)) as usize
    };
    let last_page: usize = if count >= fit {
        count - fit
    } else {
        0
    };
    let from: usize = if scroll <= last_page {
        scroll
    } else {
        last_page
    };
    let overflow: bool = count > fit && fit > 0;
    let scrollbar_w: i32 = max_i32(scale(SCROLLBAR_W, dpi), 1);
    let row_w: i32 = if overflow {
        max_i32(search.w - scrollbar_w - row_gap, 1)
    } else {
        search.w
    };
    let shown: usize = if fit <= count - from {
        fit
    } else {
        count - from
    };
    let mut rows: Vec<(usize, BarRect)> = Vec::new();
    let mut i: usize = 0;
    while i < shown
        invariant
            i <= shown,
            shown <= fit,
            fit == rows_that_fit(h as int, dpi),
            from + shown <= count,
            top == rows_top(dpi),
            bottom == rows_bottom(h as int, dpi),
            row_h == layout::extent(ROW_H as int, dpi),
            row_gap == layout::at_dpi(ROW_GAP as int, dpi),
            rows@.len() == i,
            forall|j: int|
                #![trigger rows@[j]]
                0 <= j < i ==> {
                    &&& rows@[j].0 == from + j
                    &&& rows@[j].1.is_at(
                        pad as int,
                        top + j * row_pitch(dpi),
                        row_w as int,
                        row_h as int,
                    )
                },
        decreases shown - i,
    {
        proof {
            lemma_row_metrics(dpi);
            lemma_rows_end_in_area(h as int, dpi, i as int);
            assert(i <= i * row_pitch(dpi)) by (nonlinear_arith)
                requires
                    row_pitch(dpi) >= 1,
                    0 <= i,
            ;
        }
        rows.push(
            (from + i, BarRect { x: pad, y: top + i as i32 * (row_h + row_gap), w: row_w, h: row_h }),
        );
        i = i + 1;
    }
    let scrollbar: Option<BarRect> = if overflow {
        proof {
            lemma_thumb_in_track(h as int, dpi, fit as int, count as int, scroll as int);
            assert(track_height(h as int, dpi) * fit <= i32::MAX * i32::MAX) by (nonlinear_arith)
                requires
                    0 <= track_height(h as int, dpi) <= i32::MAX,
                    0 <= fit <= i32::MAX,
            ;
            assert(0 <= track_height(h as int, dpi) * fit) by (nonlinear_arith)
                requires
                    0 <= track_height(h as int, dpi),
                    0 <= fit,
            ;
        }
        let track_h: i32 = max_i32(bottom - top, 1);
        let share: i64 = track_h as i64 * fit as i64 / count as i64;
        let least: i32 = max_i32(scale(THUMB_MIN_H, dpi), 1);
        let thumb_h: i32 = min_i32(max_i32(share as i32, least), track_h);
        let span: usize = count - fit;
        proof {
            assert(0 <= (track_h - thumb_h) * from) by (nonlinear_arith)
                requires
                    0 <= track_h - thumb_h,
                    0 <= from,
            ;
        }
        let travelled: i64 = (track_h - thumb_h) as i64 * from as i64 / span as i64;
        let thumb_y: i32 = top + travelled as i32;
        Some(BarRect { x: pad + row_w + row_gap, y: thumb_y, w: scrollbar_w, h: thumb_h })
    } else {
        None
    };
    MenuLayout { search, rows, scrollbar, fit }
}

/// No rectangle of a menu has a zero extent.
pub proof fn law_menu_has_no_zero_extents(
    l: MenuLayout,
    w: int,
    h: int,
    dpi: u32,
    count: int,
    scroll: int,
)
    requires
        l.is_layout_of(w, h, dpi, count, scroll),
        0 <= scroll,
    ensures
        l.search.w >= 1 && l.search.h >= 1,
        forall|i: int|
            0 <= i < l.rows@.len() ==> (#[trigger] l.rows@[i]).1.w >= 1 && l.rows@[i].1.h >= 1,
        l.scrollbar matches Some(thumb) ==> thumb.w >= 1 && thumb.h >= 1,
{
    lemma_row_metrics(dpi);
    if l.scrollbar is Some {
        lemma_thumb_in_track(h, dpi, rows_that_fit(h, dpi), count, scroll);
    }
}

/// Rows are consecutive items from the scroll offset on, end at the last item
/// at the latest, stand one below the other without overlap, below the search
/// box and inside the menu.
pub proof fn law_rows_window_the_list(
    l: MenuLayout,
    w: int,
    h: int,
    dpi: u32,
    count: int,
    scroll: int,
)
    requires
        l.is_layout_of(w, h, dpi, count, scroll),
        0 <= count,
        0 <= scroll,
    ensures
        forall|i: int|
            0 <= i < l.rows@.len() ==> (#[trigger] l.rows@[i]).0 == l.rows@[0].0 + i && l.rows@[i].0
                < count,
        forall|i: int|
            0 <= i < l.rows@.len() ==> l.search.y + l.search.h <= (#[trigger] l.rows@[i]).1.y
                && l.rows@[i].1.y + l.rows@[i].1.h <= rows_bottom(h, dpi),
        forall|i: int, j: int|
            0 <= i < j < l.rows@.len() ==> (#[trigger] l.rows@[i]).1.y + l.rows@[i].1.h <= (
            #[trigger] l.rows@[j]).1.y,
        scroll <= count - l.fit && l.fit > 0 ==> l.rows@.len() == l.fit && l.rows@[0].0 == scroll,
        scroll >= count - l.fit && l.fit > 0 && count > 0 ==> l.rows@.len() > 0
            && l.rows@.last().0 == count - 1,
{
    lemma_row_metrics(dpi);
    let step = row_pitch(dpi);
    assert forall|i: int| 0 <= i < l.rows@.len() implies l.search.y + l.search.h <= (
    #[trigger] l.rows@[i]).1.y && l.rows@[i].1.y + l.rows@[i].1.h <= rows_bottom(h, dpi) by {
        lemma_rows_end_in_area(h, dpi, i);
    }
    assert forall|i: int, j: int| 0 <= i < j < l.rows@.len() implies (#[trigger] l.rows@[i]).1.y
        + l.rows@[i].1.h <= (#[trigger] l.rows@[j]).1.y by {
        assert(i * step + step <= j * step) by (nonlinear_arith)
            requires
                0 <= i < j,
                step > 0,
        ;
    }
    if l.rows@.len() > 0 {
        let first = l.rows@[0];
        let last = l.rows@[l.rows@.len() - 1];
    }
    if l.fit > 0 {
        assert(l.fit == rows_that_fit(h, dpi));
    }
}

/// The scrollbar appears exactly where more items exist than fit (and any
/// fit); its thumb stays in the track, starts it when the list is at the top
/// and ends it when the list is scrolled all the way, and closes the row area
/// at the search box's right edge where the menu is wide enough.
pub proof fn law_thumb_tracks_the_scroll(
    l: MenuLayout,
    w: int,
    h: int,
    dpi: u32,
    count: int,
    scroll: int,
)
    requires
        l.is_layout_of(w, h, dpi, count, scroll),
        0 <= scroll,
    ensures
        l.scrollbar is Some <==> count > l.fit && l.fit > 0,
        l.scrollbar matches Some(thumb) ==> {
            &&& rows_top(dpi) <= thumb.y
            &&& thumb.y + thumb.h <= rows_bottom(h, dpi)
            &&& scroll == 0 ==> thumb.y == rows_top(dpi)
            &&& scroll >= count - l.fit ==> thumb.y + thumb.h == rows_bottom(h, dpi)
            &&& row_width(w, dpi, true) > 1 ==> thumb.x + thumb.w == l.search.x + l.search.w
        },
{
    if l.scrollbar is Some {
        lemma_thumb_in_track(h, dpi, rows_that_fit(h, dpi), count, scroll);
    }
}

/// Scrolling further never moves the thumb up.
pub proof fn law_thumb_moves_with_the_scroll(
    h: int,
    dpi: u32,
    fit: int,
    count: int,
    scroll: int,
    further: int,
)
    requires
        fit == rows_that_fit(h, dpi),
        rows_overflow(fit, count),
        0 <= scroll <= further,
    ensures
        thumb_top(h, dpi, fit, count, scroll) <= thumb_top(h, dpi, fit, count, further),
{
    lemma_thumb_in_track(h, dpi, fit, count, scroll);
    let travel = track_height(h, dpi) - thumb_height(h, dpi, fit, count);
    let a = scroll_in_force(fit, count, scroll);
    let b = scroll_in_force(fit, count, further);
    let span = count - fit;
    assert(travel * a / span <= travel * b / span) by (nonlinear_arith)
        requires
            0 <= travel,
            0 <= a <= b,
            0 < span,
    {
        assert(travel * a <= travel * b);
    }
}

/// A click on a visible row selects that row's item; the search box and the
/// gaps belong to no row.
pub proof fn law_click_selects_the_row_under_it(
    l: MenuLayout,
    w: int,
    h: int,
    dpi: u32,
    count: int,
    scroll: int,
    x: int,
    y: int,
)
    requires
        l.is_layout_of(w, h, dpi, count, scroll),
        0 <= count,
        0 <= scroll,
        l.rows@.len() <= usize::MAX,
    ensures
        forall|i: int|
            0 <= i < l.rows@.len() && (#[trigger] l.rows@[i]).1.covers(x, y) ==> l.item_at(x, y)
                == Some(l.rows@[i].0),
        l.search.covers(x, y) ==> l.item_at(x, y) is None,
{
    law_rows_window_the_list(l, w, h, dpi, count, scroll);
    let rects = l.rows@.map_values(|row: (usize, BarRect)| row.1);
    layout::lemma_first_rect(rects, x, y);
    assert forall|i: int| 0 <= i < l.rows@.len() && (#[trigger] l.rows@[i]).1.covers(
        x,
        y,
    ) implies l.item_at(x, y) == Some(l.rows@[i].0) by {
        assert(rects[i].covers(x, y));
        let k = layout::first_rect(rects, x, y)->0;
        assert(l.rows@[k as int].1 == rects[k as int]);
        if k != i {
            assert(rects[k as int].covers(x, y));
        }
    }
    if l.search.covers(x, y) && layout::first_rect(rects, x, y) is Some {
        let k = layout::first_rect(rects, x, y)->0;
        assert(l.rows@[k as int].1 == rects[k as int]);
        assert(false);
    }
}

/// The interaction state: the typed filter and where the selection/viewport
/// are within the *filtered* list. All transitions clamp; the caller
/// recomputes the filtered list after `on_char` reports a change.
#[derive(Debug, Clone, PartialEq, Eq)]
pub struct MenuState {
    pub filter: String,
    /// Index into the filtered list. Meaningless (0) when it is empty.
    pub selected: usize,
    /// First visible filtered index.
    pub scroll: usize,
}

impl Default for MenuState {
    fn default() -> (r: Self)
        ensures
            r.filter@ == Seq::<char>::empty(),
            r.selected == 0,
            r.scroll == 0,
    {
        MenuState { filter: String::new(), selected: 0, scroll: 0 }
    }
}

/// The filter after a typed character: shorter by one after a backspace,
/// longer by one after a printable character, unchanged otherwise.
pub open spec fn filter_after(filter: Seq<char>, c: char) -> Seq<char> {
    if c == '\u{8}' {
        if filter.len() > 0 {
            filter.drop_last()
        } else {
            filter
        }
    } else if text::is_control_char(c) {
        filter
    } else {
        filter.push(c)
    }
}

/// The first selectable row at or below `from`.
pub open spec fn next_down(selectable: Seq<bool>, from: int) -> Option<usize>
    decreases selectable.len() - from,
{
    if from < 0 || from >= selectable.len() {
        None
    } else if selectable[from] {
        Some(from as usize)
    } else {
        next_down(selectable, from + 1)
    }
}

/// The first selectable row at or above `from`.
pub open spec fn next_up(selectable: Seq<bool>, from: int) -> Option<usize>
    decreases from + 1,
{
    if from < 0 || from >= selectable.len() {
        None
    } else if selectable[from] {
        Some(from as usize)
    } else {
        next_up(selectable, from - 1)
    }
}

/// The selection after one step: the next selectable row in that direction, or
/// where it was if there is none.
pub open spec fn selection_after(selected: usize, delta: int, selectable: Seq<bool>) -> usize {
    if selectable.len() == 0 {
        0
    } else {
        let at = geometry::min_of(selected as int, selectable.len() - 1);
        let next = if delta >= 0 {
            next_down(selectable, at + 1)
        } else {
            next_up(selectable, at - 1)
        };
        match next {
            Some(i) => i,
            None => selected,
        }
    }
}

/// The viewport that keeps row `selected` in sight: unchanged if it already
/// does, pulled up to the row (and to the header right above it, where two rows
/// or more are shown), or pushed down until the row is the last one shown.
pub open spec fn viewport_after(
    selected: int,
    scroll: int,
    fit: int,
    selectable: Seq<bool>,
) -> int {
    if selectable.len() == 0 {
        0
    } else if selected < scroll {
        if fit >= 2 && selected > 0 && !selectable[selected - 1] {
            selected - 1
        } else {
            selected
        }
    } else if fit > 0 && selected >= scroll + fit {
        selected + 1 - fit
    } else {
        scroll
    }
}

impl MenuState {
    /// A typed character: printable characters extend the filter, backspace
    /// (`\u{8}`) shortens it, everything else is ignored. Returns whether the
    /// filter changed (selection and viewport reset to the top).
    pub fn on_char(&mut self, c: char) -> (changed: bool)
        ensures
            final(self).filter@ == filter_after(old(self).filter@, c),
            changed <==> final(self).filter@ != old(self).filter@,
            changed ==> final(self).selected == 0 && final(self).scroll == 0,
            !changed ==> *final(self) == *old(self),
    {
        let changed: bool = if c == '\u{8}' {
            if self.filter.as_str().is_empty() {
                false
            } else {
                let _ = self.filter.pop();
                true
            }
        } else if !text::is_control(c) {
            self.filter.push(c);
            true
        } else {
            false
        };
        if changed {
            self.selected = 0;
            self.scroll = 0;
        }
        proof {
            if changed {
                assert(self.filter@.len() != old(self).filter@.len());
            }
        }
        changed
    }

    /// Scroll the viewport by `rows` (wheel), clamped; the selection stays.
    pub fn on_wheel(&mut self, rows: i32, count: usize, fit: usize)
        requires
            old(self).scroll + rows <= i64::MAX,
            old(self).scroll <= i64::MAX,
            count - fit <= i64::MAX,
        ensures
            final(self).scroll == geometry::max_of(
                geometry::min_of(
                    old(self).scroll + rows,
                    geometry::max_of(count - fit, 0),
                ),
                0,
            ),
            final(self).selected == old(self).selected,
            final(self).filter == old(self).filter,
    {
        let max: i64 = if count >= fit {
            (count - fit) as i64
        } else {
            0
        };
        let moved: i64 = self.scroll as i64 + rows as i64;
        let clamped: i64 = if moved < 0 {
            0
        } else if moved > max {
            max
        } else {
            moved
        };
        self.scroll = clamped as usize;
    }

    /// Move the selection one step in `delta`'s direction to the next
    /// *selectable* row (skipping group headers, marked `false` in
    /// `selectable`), then scroll just enough to keep it visible in a
    /// `fit`-row viewport. A no-op if there is nothing selectable that way.
    pub fn move_selection_skipping(&mut self, delta: i32, selectable: &[bool], fit: usize)
        requires
            selectable@.len() <= i64::MAX,
            fit >= 2 && selectable@.len() > 0 && 0 < selection_after(
                old(self).selected,
                delta as int,
                selectable@,
            ) < old(self).scroll ==> selection_after(
                old(self).selected,
                delta as int,
                selectable@,
            ) <= selectable@.len(),
        ensures
            final(self).selected == selection_after(
                old(self).selected,
                delta as int,
                selectable@,
            ),
            final(self).scroll == viewport_after(
                final(self).selected as int,
                old(self).scroll as int,
                fit as int,
                selectable@,
            ),
            final(self).filter == old(self).filter,
    {
        let count: usize = selectable.len();
        if count == 0 {
            self.selected = 0;
            self.scroll = 0;
            return;
        }
        let down: bool = delta >= 0;
        let mut idx: usize = if self.selected <= count - 1 {
            self.selected
        } else {
            count - 1
        };
        let ghost at = idx as int;
        let ghost target = if down {
            next_down(selectable@, at + 1)
        } else {
            next_up(selectable@, at - 1)
        };
        let mut searching: bool = true;
        while searching
            invariant
                count == selectable@.len(),
                idx < count,
                searching ==> self.selected == old(self).selected,
                self.scroll == old(self).scroll,
                self.filter == old(self).filter,
                searching && down ==> target == next_down(selectable@, idx + 1),
                searching && !down ==> target == next_up(selectable@, idx - 1),
                !searching ==> self.selected == match target {
                    Some(i) => i,
                    None => old(self).selected,
                },
            decreases
                    if !searching {
                        0
                    } else if down {
                        count - idx
                    } else {
                        idx + 1
                    },
        {
            if (down && idx + 1 >= count) || (!down && idx == 0) {
                // At an end: stay put.
                searching = false;
            } else {
                idx = if down {
                    idx + 1
                } else {
                    idx - 1
                };
                if selectable[idx] {
                    self.selected = idx;
                    searching = false;
                }
            }
        }
        // Keep the selection (and the header just above it, when there is one)
        // visible.
        if self.selected < self.scroll {
            // Show the preceding header too if the selection tops the viewport
            // and stays in it.
            let top: usize = if fit >= 2 && self.selected > 0 && !selectable[self.selected - 1] {
                self.selected - 1
            } else {
                self.selected
            };
            self.scroll = top;
        } else if fit > 0 && self.selected - self.scroll >= fit {
            self.scroll = self.selected - (fit - 1);
        }
    }
}

/// What `next_down` finds.
pub proof fn lemma_next_down(selectable: Seq<bool>, from: int)
    requires
        0 <= from,
        selectable.len() <= usize::MAX,
    ensures
        match next_down(selectable, from) {
            Some(i) => {
                &&& from <= i < selectable.len()
                &&& selectable[i as int]
                &&& forall|j: int| from <= j < i ==> !(#[trigger] selectable[j])
            },
            None => forall|j: int| from <= j < selectable.len() ==> !(#[trigger] selectable[j]),
        },
    decreases selectable.len() - from,
{
    if from < selectable.len() && !selectable[from] {
        lemma_next_down(selectable, from + 1);
    }
}

/// What `next_up` finds.
proof fn lemma_next_up(selectable: Seq<bool>, from: int)
    requires
        from < selectable.len(),
        selectable.len() <= usize::MAX,
    ensures
        match next_up(selectable, from) {
            Some(i) => {
                &&& i <= from
                &&& selectable[i as int]
                &&& forall|j: int| i < j <= from ==> !(#[trigger] selectable[j])
            },
            None => forall|j: int| 0 <= j <= from ==> !(#[trigger] selectable[j]),
        },
    decreases from + 1,
{
    if from >= 0 && !selectable[from] {
        lemma_next_up(selectable, from - 1);
    }
}

/// A step either leaves the selection where it was, with nothing selectable
/// that way, or lands on the nearest selectable row that way: it never lands
/// on a header and skips nothing else.
pub proof fn law_selection_skips_only_headers(
    selected: usize,
    delta: int,
    selectable: Seq<bool>,
)
    requires
        selected < selectable.len() <= usize::MAX,
    ensures
        ({
            let after = selection_after(selected, delta, selectable);
            if delta >= 0 {
                ||| selected < after < selectable.len() && selectable[after as int] && forall|
                    j: int,
                |
                    selected < j < after ==> !(#[trigger] selectable[j])
                ||| after == selected && forall|j: int|
                    selected < j < selectable.len() ==> !(#[trigger] selectable[j])
            } else {
                ||| after < selected && selectable[after as int] && forall|j: int|
                    after < j < selected ==> !(#[trigger] selectable[j])
                ||| after == selected && forall|j: int|
                    0 <= j < selected ==> !(#[trigger] selectable[j])
            }
        }),
{
    if delta >= 0 {
        lemma_next_down(selectable, selected + 1);
    } else {
        lemma_next_up(selectable, selected - 1);
    }
}

/// After a step the selected row is in the viewport; in one of two rows or more
/// the header right above a row that the step pulled into sight is in it too.
pub proof fn law_selection_stays_visible(
    selected: int,
    scroll: int,
    fit: int,
    selectable: Seq<bool>,
)
    requires
        0 <= selected < selectable.len(),
        0 <= scroll,
        fit >= 1,
    ensures
        viewport_after(selected, scroll, fit, selectable) <= selected,
        selected < viewport_after(selected, scroll, fit, selectable) + fit,
        fit >= 2 && 0 < selected < scroll && !selectable[selected - 1] ==> viewport_after(
            selected,
            scroll,
            fit,
            selectable,
        ) == selected - 1,
{
}

/// The first selectable index (skipping leading headers), or 0 if none.
pub fn first_selectable(selectable: &[bool]) -> (r: usize)
    ensures
        r == match next_down(selectable@, 0) {
            Some(i) => i,
            None => 0,
        },
{
    let mut i: usize = 0;
    while i < selectable.len()
        invariant
            i <= selectable@.len(),
            next_down(selectable@, 0) == next_down(selectable@, i as int),
        decreases selectable@.len() - i,
    {
        if selectable[i] {
            return i;
        }
        i = i + 1;
    }
    0
}

/// The sizes of the menu's parts at a DPI, each rounded to the nearest pixel.
proof fn lemma_part_sizes(dpi: u32)
    ensures
        layout::at_dpi(PAD as int, dpi) == (10 * dpi + 48) / 96,
        layout::at_dpi(ROW_GAP as int, dpi) == (2 * dpi + 48) / 96,
        layout::at_dpi(ROW_H as int, dpi) == (32 * dpi + 48) / 96,
        layout::at_dpi(SEARCH_H as int, dpi) == (34 * dpi + 48) / 96,
        layout::at_dpi(SCROLLBAR_W as int, dpi) == (4 * dpi + 48) / 96,
        layout::at_dpi(THUMB_MIN_H as int, dpi) == (24 * dpi + 48) / 96,
{
    layout::lemma_small_lengths_scale(PAD as int, dpi);
    layout::lemma_small_lengths_scale(ROW_GAP as int, dpi);
    layout::lemma_small_lengths_scale(ROW_H as int, dpi);
    layout::lemma_small_lengths_scale(SEARCH_H as int, dpi);
    layout::lemma_small_lengths_scale(SCROLLBAR_W as int, dpi);
    layout::lemma_small_lengths_scale(THUMB_MIN_H as int, dpi);
}

/// A page is as long as the menu is high: its last row ends a pad above the
/// bottom at the latest, and one more row would not. So where all items fit each
/// has a row and there is no scrollbar; where they do not, the page is full.
pub proof fn law_a_page_is_full(
    l: MenuLayout,
    w: int,
    h: int,
    dpi: u32,
    count: int,
    scroll: int,
)
    requires
        l.is_layout_of(w, h, dpi, count, scroll),
        0 <= count,
        0 <= scroll,
    ensures
        ({
            let pad = (10 * dpi + 48) / 96;
            let gap = (2 * dpi + 48) / 96;
            let row = if dpi >= 2 {
                (32 * dpi + 48) / 96
            } else {
                1
            };
            let top = l.search.y + l.search.h + pad;
            let bottom = h - pad;
            &&& bottom > top ==> top + l.fit * (row + gap) + row > bottom
            &&& l.fit > 0 ==> top + (l.fit - 1) * (row + gap) + row <= bottom
            &&& bottom <= top ==> l.fit == 0
            &&& l.rows@.len() == if l.fit < count {
                l.fit as int
            } else {
                count
            }
            &&& count > 0 && bottom > top && top + (count - 1) * (row + gap) + row <= bottom ==> {
                &&& l.rows@.len() == count
                &&& l.rows@[0].0 == 0
                &&& l.scrollbar is None
            }
            &&& forall|i: int|
                0 <= i < l.rows@.len() ==> {
                    &&& (#[trigger] l.rows@[i]).1.x == pad
                    &&& l.rows@[i].1.y == top + i * (row + gap)
                    &&& l.rows@[i].1.h == row
                    &&& l.scrollbar is None ==> l.rows@[i].1.w == l.search.w
                }
        }),
{
    lemma_part_sizes(dpi);
    lemma_row_metrics(dpi);
    let pad = (10 * dpi + 48) / 96;
    let gap = (2 * dpi + 48) / 96;
    let row = layout::extent(ROW_H as int, dpi);
    let top = rows_top(dpi);
    let bottom = rows_bottom(h, dpi);
    let step = row + gap;
    let fit = rows_that_fit(h, dpi);
    assert(dpi >= 2 <==> (32 * dpi + 48) / 96 >= 1);
    assert(step == row_pitch(dpi));
    if bottom > top {
        let room = bottom - top + gap;
        assert(room < fit * step + step && 0 <= fit) by (nonlinear_arith)
            requires
                fit == room / step,
                step > 0,
                room >= 0,
        ;
        if fit > 0 {
            lemma_rows_end_in_area(h, dpi, fit - 1);
        }
        if count > 0 && top + (count - 1) * step + row <= bottom {
            assert(count <= fit) by (nonlinear_arith)
                requires
                    room < fit * step + step,
                    (count - 1) * step + step <= room,
                    step > 0,
            ;
        }
    }
}

/// The search box spans the menu between two pads, one pad below its top edge.
pub proof fn law_the_search_box_tops_the_menu(
    l: MenuLayout,
    w: int,
    h: int,
    dpi: u32,
    count: int,
    scroll: int,
)
    requires
        l.is_layout_of(w, h, dpi, count, scroll),
        dpi >= 2,
    ensures
        l.search.x == (10 * dpi + 48) / 96,
        l.search.y == (10 * dpi + 48) / 96,
        l.search.h == (34 * dpi + 48) / 96,
        w > 2 * ((10 * dpi + 48) / 96) ==> l.search.x + l.search.w == w - l.search.x,
        w <= 2 * ((10 * dpi + 48) / 96) ==> l.search.w == 1,
{
    lemma_part_sizes(dpi);
}

/// The thumb is as tall a part of its track as the page is of the list, but never
/// shorter than its least height, nor taller than the track; it stands as far
/// down its travel as the page is down the list. The rows make room for it.
pub proof fn law_the_thumb_shows_the_page(
    l: MenuLayout,
    w: int,
    h: int,
    dpi: u32,
    count: int,
    scroll: int,
)
    requires
        l.is_layout_of(w, h, dpi, count, scroll),
        0 <= scroll,
        l.scrollbar is Some,
        dpi >= 12,
    ensures
        ({
            let thumb = l.scrollbar->0;
            let pad = (10 * dpi + 48) / 96;
            let gap = (2 * dpi + 48) / 96;
            let least = (24 * dpi + 48) / 96;
            let top = l.search.y + l.search.h + pad;
            let track = h - pad - top;
            let from = if scroll < count - l.fit {
                scroll
            } else {
                count - l.fit
            };
            &&& thumb.w == (4 * dpi + 48) / 96
            &&& thumb.h <= track
            &&& thumb.h >= least || thumb.h == track
            &&& thumb.h > least ==> thumb.h * count <= track * l.fit < thumb.h * count + count
            &&& thumb.h < track && thumb.h == least ==> track * l.fit < least * count + count
            &&& (thumb.y - top) * (count - l.fit) <= (track - thumb.h) * from < (thumb.y - top) * (
            count - l.fit) + (count - l.fit)
            &&& forall|i: int|
                0 <= i < l.rows@.len() ==> {
                    &&& (#[trigger] l.rows@[i]).1.x + l.rows@[i].1.w + gap == thumb.x
                    &&& l.rows@[i].1.w == if l.search.w - thumb.w - gap > 1 {
                        l.search.w - thumb.w - gap
                    } else {
                        1
                    }
                }
        }),
{
    lemma_part_sizes(dpi);
    lemma_row_metrics(dpi);
    let fit = rows_that_fit(h, dpi);
    lemma_thumb_in_track(h, dpi, fit, count, scroll);
    let thumb = l.scrollbar->0;
    let track = track_height(h, dpi);
    let q = track * fit / count;
    assert(q * count <= track * fit < q * count + count) by (nonlinear_arith)
        requires
            q == track * fit / count,
            count > 0,
            track * fit >= 0,
    ;
    assert(0 <= track * fit) by (nonlinear_arith)
        requires
            track > 0,
            fit > 0,
    ;
    let least = (24 * dpi + 48) / 96;
    let th = thumb_height(h, dpi, fit, count);
    if th == least && th < track {
        assert(q <= least);
        assert(q * count <= least * count) by (nonlinear_arith)
            requires
                q <= least,
                count > 0,
        ;
    }
    if th > least {
        assert(th == q);
    }
    let span = count - fit;
    let from = scroll_in_force(fit, count, scroll);
    let moved = (track - th) * from;
    let down = moved / span;
    assert(0 <= moved) by (nonlinear_arith)
        requires
            track - th >= 0,
            from >= 0,
            moved == (track - th) * from,
    ;
    assert(down * span <= moved < down * span + span) by (nonlinear_arith)
        requires
            down == moved / span,
            span > 0,
            moved >= 0,
    ;
}

/// The menu is 360 by at most 520 pixels at 96 DPI, no wider than the monitor and
/// no higher than the room above the bar, from which it keeps a gap of 8.
pub proof fn law_the_menu_has_its_size(
    r: BarRect,
    mon: (i32, i32, i32, i32),
    bar: BarRect,
    dpi: u32,
)
    requires
        is_menu_rect(r, mon, bar, dpi),
        dpi <= 9_600,
        mon.2 >= 1,
    ensures
        r.w == if (360 * dpi + 48) / 96 < mon.2 {
            ((360 * dpi + 48) / 96) as int
        } else {
            mon.2 as int
        },
        r.y + r.h + (8 * dpi + 48) / 96 == bar.y,
        bar.y - (8 * dpi + 48) / 96 - mon.1 >= 1 ==> r.h == if (520 * dpi + 48) / 96 < bar.y - (8
            * dpi + 48) / 96 - mon.1 {
            ((520 * dpi + 48) / 96) as int
        } else {
            bar.y - (8 * dpi + 48) / 96 - mon.1
        },
{
}

/// The page moves no further than it must: not at all while the selected row is
/// on it, up to that row (or the header right above it), or down until that row
/// is its last.
pub proof fn law_the_page_moves_no_further_than_it_must(
    selected: int,
    scroll: int,
    fit: int,
    selectable: Seq<bool>,
)
    requires
        0 <= selected < selectable.len(),
        0 <= scroll,
        fit >= 1,
    ensures
        scroll <= selected < scroll + fit ==> viewport_after(selected, scroll, fit, selectable)
            == scroll,
        selected >= scroll + fit ==> viewport_after(selected, scroll, fit, selectable)
            == selected - fit + 1,
        selected < scroll ==> viewport_after(selected, scroll, fit, selectable) == if fit >= 2
            && selected > 0 && !selectable[selected - 1] {
            selected - 1
        } else {
            selected
        },
{
}

/// A printable character goes to the end of what was typed, and a backspace takes
/// the last one off again; a control character does nothing.
pub proof fn law_a_backspace_undoes_a_character(filter: Seq<char>, c: char)
    ensures
        ({
            let printable = c as int >= 32 && !(127 <= c as int <= 159);
            &&& printable ==> filter_after(filter, c) == filter + seq![c]
            &&& printable ==> filter_after(filter_after(filter, c), '\u{8}') == filter
            &&& !printable && c as int != 8 ==> filter_after(filter, c) == filter
        }),
        filter.len() > 0 ==> filter_after(filter, '\u{8}') + seq![filter.last()] == filter,
        filter.len() == 0 ==> filter_after(filter, '\u{8}') == filter,
{
    assert(filter.push(c) =~= filter + seq![c]);
    assert(filter.push(c).drop_last() =~= filter);
    if filter.len() > 0 {
        assert(filter.drop_last() + seq![filter.last()] =~= filter);
    }
}

/// A menu opens on its first row that is no header.
pub proof fn law_the_first_row_that_can_be_chosen_is_found(selectable: Seq<bool>, i: int)
    requires
        0 <= i < selectable.len() <= usize::MAX,
        selectable[i],
        forall|j: int| 0 <= j < i ==> !(#[trigger] selectable[j]),
    ensures
        next_down(selectable, 0) == Some(i as usize),
{
    lemma_next_down(selectable, 0);
}

/// The lengths of the menu, at 96 DPI.
pub proof fn law_the_menus_parts_have_their_lengths()
    ensures
        MENU_W == 360,
        MENU_MAX_H == 520,
        GAP_ABOVE_BAR == 8,
        PAD == 10,
        SEARCH_H == 34,
        ROW_H == 32,
        ROW_GAP == 2,
        SCROLLBAR_W == 4,
        THUMB_MIN_H == 24,
{
}

} // verus!
