//! Where the bar sits on screen and where the Start button and the window
//! buttons sit inside it.
use vstd::prelude::*;

use crate::geometry::{self, max_i32, min_i32};

verus! {

broadcast use vstd::arithmetic::mul::lemma_mul_is_commutative;

/// A window rectangle in physical pixels.
#[derive(Debug, Clone, Copy, PartialEq, Eq, Structural)]
pub struct BarRect {
    pub x: i32,
    pub y: i32,
    pub w: i32,
    pub h: i32,
}

impl BarRect {
    /// The half-open region a rectangle covers.
    pub open spec fn covers(self, x: int, y: int) -> bool {
        &&& self.x <= x < self.x + self.w
        &&& self.y <= y < self.y + self.h
    }

    /// Whether this rectangle is the one at `(x, y)` with extent `w` by `h`.
    pub open spec fn is_at(self, x: int, y: int, w: int, h: int) -> bool {
        self.x == x && self.y == y && self.w == w && self.h == h
    }

    /// Whether the point (same coordinate space as the rect) lies inside.
    pub fn contains(&self, x: i32, y: i32) -> (r: bool)
        ensures
            r == self.covers(x as int, y as int),
    {
        x >= self.x && (x as i64) < self.x as i64 + self.w as i64 && y >= self.y && (y as i64)
            < self.y as i64 + self.h as i64
    }
}

/// A 96-DPI length in physical pixels.
pub open spec fn at_dpi(px: int, dpi: u32) -> int {
    geometry::scaled(px, dpi as int) as int
}

/// A 96-DPI extent in physical pixels, never less than one pixel.
pub open spec fn extent(px: int, dpi: u32) -> int {
    geometry::max_of(at_dpi(px, dpi), 1)
}

/// Scale a 96-DPI config length to physical pixels, rounding to nearest.
pub fn scale(px: u32, dpi: u32) -> (r: i32)
    ensures
        r == at_dpi(px as int, dpi),
{
    proof {
        assert(0 <= px * dpi <= 0xffff_ffff * 0xffff_ffff) by (nonlinear_arith)
            requires
                0 <= px <= 0xffff_ffff,
                0 <= dpi <= 0xffff_ffff,
        ;
    }
    ((px as u64 * dpi as u64 + 48) / 96) as i32
}

/// A length of at most 47 pixels keeps its value at any DPI.
pub proof fn lemma_small_lengths_scale(px: int, dpi: u32)
    requires
        0 <= px <= 47,
    ensures
        at_dpi(px, dpi) == (px * dpi + 48) / 96,
        at_dpi(px, dpi) >= 0,
{
    assert(0 <= px * dpi <= 47 * 0xffff_ffff) by (nonlinear_arith)
        requires
            0 <= px <= 47,
            0 <= dpi <= 0xffff_ffff,
    ;
}

/// The quantities of a bar rectangle are representable.
pub open spec fn bar_fits(
    screen_w: int,
    screen_h: int,
    height: u32,
    margin: u32,
    dpi: u32,
) -> bool {
    let h = extent(geometry::max_of(height as int, 1), dpi);
    let m = at_dpi(margin as int, dpi);
    &&& geometry::is_i32(screen_h - h)
    &&& geometry::is_i32(screen_h - h - m)
    &&& geometry::is_i32(2 * m)
    &&& geometry::is_i32(screen_w - 2 * m)
}

/// Whether `r` is the bar of such a screen: full width minus a margin on each
/// side, one margin above the bottom edge, but never above the top of the
/// screen and never without an extent.
pub open spec fn is_bar_rect(
    r: BarRect,
    screen_w: int,
    screen_h: int,
    height: u32,
    margin: u32,
    dpi: u32,
) -> bool {
    let h = extent(geometry::max_of(height as int, 1), dpi);
    let m = at_dpi(margin as int, dpi);
    r.is_at(
        m,
        geometry::max_of(screen_h - h - m, 0),
        geometry::max_of(screen_w - 2 * m, 1),
        h,
    )
}

/// Bottom-of-screen bar: full width minus `margin` on each side, floating
/// `margin` above the bottom edge (`margin = 0` docks it edge to edge).
/// `screen_w` and `screen_h` are physical pixels; `height` and `margin` are
/// 96-DPI config values.
pub fn bar_rect(screen_w: i32, screen_h: i32, height: u32, margin: u32, dpi: u32) -> (r: BarRect)
    requires
        bar_fits(screen_w as int, screen_h as int, height, margin, dpi),
    ensures
        is_bar_rect(r, screen_w as int, screen_h as int, height, margin, dpi),
{
    let at_least_one: u32 = if height >= 1 {
        height
    } else {
        1
    };
    let h: i32 = max_i32(scale(at_least_one, dpi), 1);
    let m: i32 = scale(margin, dpi);
    BarRect { x: m, y: max_i32(screen_h - h - m, 0), w: max_i32(screen_w - 2 * m, 1), h }
}

/// The bar never has an empty extent and never starts above the screen, and
/// without a margin it spans the screen edge to edge and ends at its bottom
/// edge.
pub proof fn law_bar_is_never_empty(
    r: BarRect,
    screen_w: int,
    screen_h: int,
    height: u32,
    margin: u32,
    dpi: u32,
)
    requires
        is_bar_rect(r, screen_w, screen_h, height, margin, dpi),
    ensures
        r.w >= 1 && r.h >= 1 && r.y >= 0,
        margin == 0 && screen_w >= 1 && screen_h >= r.h ==> r.x == 0 && r.w == screen_w && r.y
            + r.h == screen_h,
{
    if margin == 0 {
        assert(margin as int * dpi as int == 0) by (nonlinear_arith)
            requires
                margin == 0,
        ;
    }
}

/// A screen of any size up to a million pixels a side, at up to a hundred
/// times the nominal DPI, can hold a bar.
pub proof fn law_ordinary_bars_fit(
    screen_w: int,
    screen_h: int,
    height: u32,
    margin: u32,
    dpi: u32,
)
    requires
        -1_000_000 <= screen_w <= 1_000_000,
        -1_000_000 <= screen_h <= 1_000_000,
        height <= 100_000,
        margin <= 100_000,
        dpi <= 9_600,
    ensures
        bar_fits(screen_w, screen_h, height, margin, dpi),
{
    let at_least_one = geometry::max_of(height as int, 1);
    assert(0 <= at_least_one * dpi <= 960_000_000) by (nonlinear_arith)
        requires
            0 <= at_least_one <= 100_000,
            0 <= dpi <= 9_600,
    ;
    assert(0 <= margin * dpi <= 960_000_000) by (nonlinear_arith)
        requires
            0 <= margin <= 100_000,
            0 <= dpi <= 9_600,
    ;
}

/// 96-DPI width reserved for the clock at the bar's right edge. Shared by
/// the button layout (stops before it) and the renderer (draws into it).
pub const CLOCK_RESERVE: u32 = 88;

pub const BUTTON_MAX_W: u32 = 180;
pub const BUTTON_MIN_W: u32 = 48;
pub const BUTTON_GAP: u32 = 6;
pub const BUTTON_VPAD: u32 = 6;
pub const EDGE_PAD: u32 = 10;

/// Side of the Start square, and height of the window buttons: the bar height
/// less the vertical padding on both sides.
pub open spec fn inner_height(bar_h: int, dpi: u32) -> int {
    geometry::max_of(bar_h - 2 * at_dpi(BUTTON_VPAD as int, dpi), 1)
}

/// The Start square can be computed.
pub open spec fn start_fits(bar_h: int, dpi: u32) -> bool {
    &&& geometry::is_i32(2 * at_dpi(BUTTON_VPAD as int, dpi))
    &&& geometry::is_i32(bar_h - 2 * at_dpi(BUTTON_VPAD as int, dpi))
}

/// Whether `r` is the Start square of a bar of that height.
pub open spec fn is_start_rect(r: BarRect, bar_h: int, dpi: u32) -> bool {
    r.is_at(
        at_dpi(EDGE_PAD as int, dpi),
        at_dpi(BUTTON_VPAD as int, dpi),
        inner_height(bar_h, dpi),
        inner_height(bar_h, dpi),
    )
}

/// Bar-local square for the Start button: the leftmost element, inset by the
/// same edge/vertical padding as the window buttons, which lay out after it.
pub fn start_rect(bar_h: i32, dpi: u32) -> (r: BarRect)
    requires
        start_fits(bar_h as int, dpi),
    ensures
        is_start_rect(r, bar_h as int, dpi),
{
    let vpad: i32 = scale(BUTTON_VPAD, dpi);
    let side: i32 = max_i32(bar_h - 2 * vpad, 1);
    BarRect { x: scale(EDGE_PAD, dpi), y: vpad, w: side, h: side }
}

/// Left edge of the first window button: one gap past the Start square.
pub open spec fn buttons_left(bar_h: int, dpi: u32) -> int {
    at_dpi(EDGE_PAD as int, dpi) + inner_height(bar_h, dpi) + at_dpi(BUTTON_GAP as int, dpi)
}

/// Width left for window buttons: up to the clock reserve.
pub open spec fn buttons_room(bar_w: int, bar_h: int, dpi: u32) -> int {
    bar_w - buttons_left(bar_h, dpi) - at_dpi(CLOCK_RESERVE as int, dpi)
}

/// The width each of `count` buttons gets if all of them are shown.
pub open spec fn fair_width(bar_w: int, bar_h: int, count: int, dpi: u32) -> int {
    geometry::trunc_div(
        buttons_room(bar_w, bar_h, dpi) - (count - 1) * at_dpi(BUTTON_GAP as int, dpi),
        count,
    )
}

/// The width of a button: the fair share, at most the maximum; or the minimum
/// where the fair share is below it.
pub open spec fn button_width(bar_w: int, bar_h: int, count: int, dpi: u32) -> int {
    let fair = fair_width(bar_w, bar_h, count, dpi);
    let min_w = extent(BUTTON_MIN_W as int, dpi);
    if fair >= min_w {
        geometry::min_of(fair, extent(BUTTON_MAX_W as int, dpi))
    } else {
        min_w
    }
}

/// How many of `count` buttons are shown: all of them, or as many as fit at
/// the minimum width.
pub open spec fn button_count(bar_w: int, bar_h: int, count: int, dpi: u32) -> int {
    let min_w = extent(BUTTON_MIN_W as int, dpi);
    let gap = at_dpi(BUTTON_GAP as int, dpi);
    if count == 0 {
        0
    } else if fair_width(bar_w, bar_h, count, dpi) >= min_w {
        count
    } else {
        geometry::max_of(
            geometry::min_of(
                geometry::trunc_div(buttons_room(bar_w, bar_h, dpi) + gap, min_w + gap),
                count,
            ),
            0,
        )
    }
}

/// The quantities of a button layout are representable.
pub open spec fn buttons_fit(bar_w: int, bar_h: int, count: int, dpi: u32) -> bool {
    let gap = at_dpi(BUTTON_GAP as int, dpi);
    let min_w = extent(BUTTON_MIN_W as int, dpi);
    let room = buttons_room(bar_w, bar_h, dpi);
    let step = button_width(bar_w, bar_h, count, dpi) + gap;
    let last = button_count(bar_w, bar_h, count, dpi) - 1;
    count > 0 ==> {
        &&& count <= i32::MAX
        &&& start_fits(bar_h, dpi)
        &&& geometry::is_i32(at_dpi(EDGE_PAD as int, dpi) + inner_height(bar_h, dpi))
        &&& geometry::is_i32(buttons_left(bar_h, dpi))
        &&& geometry::is_i32(bar_w - buttons_left(bar_h, dpi))
        &&& geometry::is_i32(room)
        &&& geometry::is_i32((count - 1) * gap)
        &&& geometry::is_i32(room - (count - 1) * gap)
        &&& geometry::is_i32(min_w + gap)
        &&& geometry::is_i32(room + gap)
        &&& geometry::is_i32(step)
        &&& last > 0 ==> geometry::is_i32(last * step)
        &&& last > 0 ==> geometry::is_i32(buttons_left(bar_h, dpi) + last * step)
    }
}

/// A bar of any size up to a million pixels a side, at up to a hundred times
/// the nominal DPI and with up to a hundred thousand windows, can be laid out.
pub proof fn law_ordinary_buttons_fit(bar_w: int, bar_h: int, count: int, dpi: u32)
    requires
        -2_000_000 <= bar_w <= 1_000_000,
        -1_000_000 <= bar_h <= 1_000_000,
        0 <= count <= 100_000,
        dpi <= 9_600,
    ensures
        start_fits(bar_h, dpi),
        buttons_fit(bar_w, bar_h, count, dpi),
{
    if count > 0 {
        let gap = at_dpi(BUTTON_GAP as int, dpi);
        let min_w = extent(BUTTON_MIN_W as int, dpi);
        let room = buttons_room(bar_w, bar_h, dpi);
        let w = button_width(bar_w, bar_h, count, dpi);
        let last = button_count(bar_w, bar_h, count, dpi) - 1;
        assert(0 <= gap <= 600);
        assert(-60_000_000 <= (count - 1) * gap <= 60_000_000) by (nonlinear_arith)
            requires
                0 <= gap <= 600,
                0 < count <= 100_000,
        ;
        geometry::lemma_trunc_div(room - (count - 1) * gap, count);
        geometry::lemma_trunc_div(room + gap, min_w + gap);
        if last > 0 {
            let fair = fair_width(bar_w, bar_h, count, dpi);
            if fair >= min_w {
                assert(0 <= last * (w + gap) <= 2_000_000) by (nonlinear_arith)
                    requires
                        0 < last,
                        last == count - 1,
                        1 <= w <= fair,
                        0 <= gap,
                        fair * count <= room - (count - 1) * gap,
                        room <= 1_000_000,
                ;
            } else {
                let q = geometry::trunc_div(room + gap, min_w + gap);
                assert(0 <= last * (w + gap) <= 2_000_000) by (nonlinear_arith)
                    requires
                        0 < last,
                        last <= q - 1,
                        w == min_w,
                        1 <= w,
                        0 <= gap <= 600,
                        q * (min_w + gap) <= room + gap,
                        room <= 1_000_000,
                ;
            }
        }
    }
}

/// Whether `rects` are the buttons of such a bar, from left to right.
pub open spec fn is_button_row(
    rects: Seq<BarRect>,
    bar_w: int,
    bar_h: int,
    count: int,
    dpi: u32,
) -> bool {
    let w = button_width(bar_w, bar_h, count, dpi);
    let step = w + at_dpi(BUTTON_GAP as int, dpi);
    &&& rects.len() == button_count(bar_w, bar_h, count, dpi)
    &&& forall|i: int|
        #![trigger rects[i]]
        0 <= i < rects.len() ==> rects[i].is_at(
            buttons_left(bar_h, dpi) + i * step,
            at_dpi(BUTTON_VPAD as int, dpi),
            w,
            inner_height(bar_h, dpi),
        )
}

/// Bar-local rectangles for `count` window buttons: left-aligned after the
/// Start button, stopping before the clock reserve. Buttons shrink from
/// `BUTTON_MAX_W` down to `BUTTON_MIN_W` as the bar fills; windows that
/// still do not fit get no button (dropped from the end).
pub fn button_rects(bar_w: i32, bar_h: i32, count: usize, dpi: u32) -> (rects: Vec<BarRect>)
    requires
        buttons_fit(bar_w as int, bar_h as int, count as int, dpi),
    ensures
        is_button_row(rects@, bar_w as int, bar_h as int, count as int, dpi),
{
    if count == 0 {
        return Vec::new();
    }
    let gap: i32 = scale(BUTTON_GAP, dpi);
    let vpad: i32 = scale(BUTTON_VPAD, dpi);
    let start = start_rect(bar_h, dpi);
    let pad: i32 = start.x + start.w + gap;
    let avail: i32 = bar_w - pad - scale(CLOCK_RESERVE, dpi);
    let max_w: i32 = max_i32(scale(BUTTON_MAX_W, dpi), 1);
    let min_w: i32 = max_i32(scale(BUTTON_MIN_W, dpi), 1);

    let wanted: i32 = count as i32;
    proof {
        lemma_small_lengths_scale(BUTTON_GAP as int, dpi);
        geometry::lemma_trunc_div(avail - (wanted - 1) * gap, wanted as int);
        geometry::lemma_trunc_div(avail + gap, min_w + gap);
    }
    let width_if_all_fit: i32 = (avail - (wanted - 1) * gap) / wanted;
    let w: i32;
    let n: i32;
    if width_if_all_fit >= min_w {
        w = min_i32(width_if_all_fit, max_w);
        n = wanted;
    } else {
        // Shrunk to the floor and still too many: drop the tail.
        w = min_w;
        n = max_i32(min_i32((avail + gap) / (min_w + gap), wanted), 0);
    }
    let h: i32 = max_i32(bar_h - 2 * vpad, 1);
    let mut rects: Vec<BarRect> = Vec::new();
    let mut i: i32 = 0;
    while i < n
        invariant
            0 <= i <= n,
            n > 1 ==> geometry::is_i32((n - 1) * (w + gap)),
            n > 1 ==> geometry::is_i32(pad + (n - 1) * (w + gap)),
            geometry::is_i32(w + gap),
            rects@.len() == i,
            forall|j: int|
                #![trigger rects@[j]]
                0 <= j < i ==> rects@[j].is_at(
                    pad + j * (w + gap),
                    vpad as int,
                    w as int,
                    h as int,
                ),
        decreases n - i,
    {
        proof {
            if i > 0 {
                geometry::lemma_progression_between(0, w + gap, i as int, n - 1);
                geometry::lemma_progression_between(pad as int, w + gap, i as int, n - 1);
            }
        }
        rects.push(BarRect { x: pad + i * (w + gap), y: vpad, w, h });
        i = i + 1;
    }
    rects
}

/// The index of the first rectangle that covers `(x, y)`.
pub open spec fn first_rect(rects: Seq<BarRect>, x: int, y: int) -> Option<usize>
    decreases rects.len(),
{
    if rects.len() == 0 {
        None
    } else {
        match first_rect(rects.drop_last(), x, y) {
            Some(i) => Some(i),
            None => if rects.last().covers(x, y) {
                Some((rects.len() - 1) as usize)
            } else {
                None
            },
        }
    }
}

/// `first_rect` finds a rectangle exactly when one covers the point, and finds
/// the first such rectangle.
pub proof fn lemma_first_rect(rects: Seq<BarRect>, x: int, y: int)
    requires
        rects.len() <= usize::MAX,
    ensures
        match first_rect(rects, x, y) {
            Some(i) => {
                &&& i < rects.len()
                &&& rects[i as int].covers(x, y)
                &&& forall|j: int| 0 <= j < i ==> !(#[trigger] rects[j]).covers(x, y)
            },
            None => forall|j: int| 0 <= j < rects.len() ==> !(#[trigger] rects[j]).covers(x, y),
        },
    decreases rects.len(),
{
    if rects.len() > 0 {
        let init = rects.drop_last();
        lemma_first_rect(init, x, y);
        assert forall|j: int| 0 <= j < rects.len() - 1 implies #[trigger] rects[j] == init[j] by {}
    }
}

/// Index of the first rect containing the point, if any.
pub fn hit_test(rects: &[BarRect], x: i32, y: i32) -> (r: Option<usize>)
    ensures
        r == first_rect(rects@, x as int, y as int),
{
    let mut i: usize = 0;
    while i < rects.len()
        invariant
            i <= rects.len(),
            first_rect(rects@.take(i as int), x as int, y as int) is None,
        decreases rects.len() - i,
    {
        proof {
            let next = rects@.take(i + 1);
            assert(next.drop_last() =~= rects@.take(i as int));
            assert(next.last() == rects@[i as int]);
        }
        if rects[i].contains(x, y) {
            proof {
                lemma_first_rect(rects@, x as int, y as int);
                lemma_first_rect(rects@.take(i as int), x as int, y as int);
                assert forall|j: int| 0 <= j < i implies !(#[trigger] rects@[j]).covers(
                    x as int,
                    y as int,
                ) by {
                    assert(rects@[j] == rects@.take(i as int)[j]);
                }
            }
            return Some(i);
        }
        i = i + 1;
    }
    proof {
        assert(rects@.take(rects@.len() as int) =~= rects@);
    }
    None
}

/// The shown buttons, with the gaps between them, fit into their room; dropped
/// buttons mean the minimum width.
pub proof fn lemma_buttons_span(bar_w: int, bar_h: int, count: int, dpi: u32)
    requires
        count >= 0,
    ensures
        ({
            let n = button_count(bar_w, bar_h, count, dpi);
            let w = button_width(bar_w, bar_h, count, dpi);
            let gap = at_dpi(BUTTON_GAP as int, dpi);
            let min_w = extent(BUTTON_MIN_W as int, dpi);
            &&& gap >= 0
            &&& 0 <= n <= count
            &&& count > 0 ==> w >= 1
            &&& n > 0 ==> n * (w + gap) - gap <= buttons_room(bar_w, bar_h, dpi)
            &&& 0 < count && n < count ==> w == min_w
            &&& 0 < count && n == count ==> count * (min_w + gap) - gap <= buttons_room(
                bar_w,
                bar_h,
                dpi,
            )
        }),
{
    lemma_small_lengths_scale(BUTTON_GAP as int, dpi);
    let gap = at_dpi(BUTTON_GAP as int, dpi);
    let min_w = extent(BUTTON_MIN_W as int, dpi);
    let room = buttons_room(bar_w, bar_h, dpi);
    let w = button_width(bar_w, bar_h, count, dpi);
    let n = button_count(bar_w, bar_h, count, dpi);
    if count > 0 {
        let fair = fair_width(bar_w, bar_h, count, dpi);
        geometry::lemma_trunc_div(room - (count - 1) * gap, count);
        geometry::lemma_trunc_div(room + gap, min_w + gap);
        if fair >= min_w {
            assert(n * (w + gap) - gap <= room) by (nonlinear_arith)
                requires
                    n == count,
                    0 < count,
                    1 <= w <= fair,
                    fair * count <= room - (count - 1) * gap,
            {
                assert(count * (w + gap) == count * w + count * gap);
                assert((count - 1) * gap == count * gap - gap);
                assert(count * w <= count * fair);
            }
            assert(count * (min_w + gap) - gap <= room) by (nonlinear_arith)
                requires
                    0 < count,
                    min_w <= fair,
                    fair * count <= room - (count - 1) * gap,
            {
                assert(count * (min_w + gap) == count * min_w + count * gap);
                assert((count - 1) * gap == count * gap - gap);
                assert(count * min_w <= count * fair);
            }
        } else if n > 0 {
            let q = geometry::trunc_div(room + gap, min_w + gap);
            assert(n * (w + gap) - gap <= room) by (nonlinear_arith)
                requires
                    0 < n <= q,
                    1 <= w,
                    w == min_w,
                    0 <= gap,
                    q * (min_w + gap) <= room + gap,
            ;
        }
    }
}

/// Every window button has an extent, and the last one ends before the clock
/// reserve.
pub proof fn law_buttons_end_before_the_clock(
    rects: Seq<BarRect>,
    bar_w: int,
    bar_h: int,
    count: int,
    dpi: u32,
)
    requires
        count >= 0,
        is_button_row(rects, bar_w, bar_h, count, dpi),
    ensures
        forall|i: int|
            0 <= i < rects.len() ==> {
                &&& (#[trigger] rects[i]).w >= 1
                &&& rects[i].h >= 1
                &&& rects[i].x + rects[i].w <= bar_w - at_dpi(CLOCK_RESERVE as int, dpi)
            },
        rects.len() <= count,
{
    lemma_buttons_span(bar_w, bar_h, count, dpi);
    let gap = at_dpi(BUTTON_GAP as int, dpi);
    let room = buttons_room(bar_w, bar_h, dpi);
    let w = button_width(bar_w, bar_h, count, dpi);
    let n = button_count(bar_w, bar_h, count, dpi);
    assert forall|i: int| 0 <= i < rects.len() implies {
        &&& (#[trigger] rects[i]).w >= 1
        &&& rects[i].h >= 1
        &&& rects[i].x + rects[i].w <= bar_w - at_dpi(CLOCK_RESERVE as int, dpi)
    } by {
        assert(i * (w + gap) + w <= room) by (nonlinear_arith)
            requires
                0 <= i < n,
                1 <= w,
                0 <= gap,
                n * (w + gap) - gap <= room,
        {
            assert((i + 1) * (w + gap) <= n * (w + gap));
            assert((i + 1) * (w + gap) == i * (w + gap) + w + gap);
        }
    }
}

/// Window buttons come left to right without overlap, all of them right of the
/// Start square.
pub proof fn law_start_and_buttons_never_overlap(
    start: BarRect,
    rects: Seq<BarRect>,
    bar_w: int,
    bar_h: int,
    count: int,
    dpi: u32,
)
    requires
        count >= 0,
        is_start_rect(start, bar_h, dpi),
        is_button_row(rects, bar_w, bar_h, count, dpi),
    ensures
        start.w >= 1 && start.h >= 1,
        forall|i: int| 0 <= i < rects.len() ==> start.x + start.w <= (#[trigger] rects[i]).x,
        forall|i: int, j: int|
            0 <= i < j < rects.len() ==> (#[trigger] rects[i]).x + rects[i].w <= (
            #[trigger] rects[j]).x,
        forall|x: int, y: int|
            #![trigger start.covers(x, y)]
            start.covers(x, y) ==> forall|i: int|
                0 <= i < rects.len() ==> !(#[trigger] rects[i]).covers(x, y),
{
    lemma_small_lengths_scale(BUTTON_GAP as int, dpi);
    law_buttons_end_before_the_clock(rects, bar_w, bar_h, count, dpi);
    let gap = at_dpi(BUTTON_GAP as int, dpi);
    let w = button_width(bar_w, bar_h, count, dpi);
    assert forall|i: int| 0 <= i < rects.len() implies start.x + start.w <= (#[trigger] rects[i]).x
    by {
        assert(0 <= i * (w + gap)) by (nonlinear_arith)
            requires
                0 <= i,
                1 <= w,
                0 <= gap,
        ;
    }
    assert forall|i: int, j: int| 0 <= i < j < rects.len() implies (#[trigger] rects[i]).x
        + rects[i].w <= (#[trigger] rects[j]).x by {
        assert(i * (w + gap) + w <= j * (w + gap)) by (nonlinear_arith)
            requires
                0 <= i < j,
                1 <= w,
                0 <= gap,
        {
            assert((i + 1) * (w + gap) <= j * (w + gap));
            assert((i + 1) * (w + gap) == i * (w + gap) + w + gap);
        }
    }
}

/// Buttons are only ever dropped at the minimum width: as long as every window
/// can have that much, every window has a button.
pub proof fn law_buttons_drop_only_at_the_minimum_width(
    rects: Seq<BarRect>,
    bar_w: int,
    bar_h: int,
    count: int,
    dpi: u32,
)
    requires
        count > 0,
        is_button_row(rects, bar_w, bar_h, count, dpi),
    ensures
        rects.len() < count ==> button_width(bar_w, bar_h, count, dpi) == extent(
            BUTTON_MIN_W as int,
            dpi,
        ),
        count * extent(BUTTON_MIN_W as int, dpi) + (count - 1) * at_dpi(BUTTON_GAP as int, dpi)
            <= buttons_room(bar_w, bar_h, dpi) ==> rects.len() == count,
{
    let gap = at_dpi(BUTTON_GAP as int, dpi);
    let min_w = extent(BUTTON_MIN_W as int, dpi);
    let room = buttons_room(bar_w, bar_h, dpi);
    let q = geometry::trunc_div(room - (count - 1) * gap, count);
    geometry::lemma_trunc_div(room - (count - 1) * gap, count);
    if count * min_w + (count - 1) * gap <= room {
        assert(q >= min_w) by (nonlinear_arith)
            requires
                count > 0,
                count * min_w <= room - (count - 1) * gap,
                room - (count - 1) * gap < q * count + count,
        ;
    }
}

/// Where there is less room, no more buttons are shown: what overflows a bar
/// overflows a narrower one.
pub proof fn lemma_narrower_bars_overflow(
    bar_w: int,
    narrower: int,
    bar_h: int,
    count: int,
    dpi: u32,
)
    requires
        narrower <= bar_w,
        count >= 0,
        button_count(bar_w, bar_h, count, dpi) < count,
    ensures
        button_count(narrower, bar_h, count, dpi) < count,
{
    lemma_buttons_span(bar_w, bar_h, count, dpi);
    lemma_buttons_span(narrower, bar_h, count, dpi);
    if button_count(narrower, bar_h, count, dpi) == count {
        let gap = at_dpi(BUTTON_GAP as int, dpi);
        let min_w = extent(BUTTON_MIN_W as int, dpi);
        let room = buttons_room(bar_w, bar_h, dpi);
        let less = buttons_room(narrower, bar_h, dpi);
        let q = geometry::trunc_div(room - (count - 1) * gap, count);
        geometry::lemma_trunc_div(room - (count - 1) * gap, count);
        assert(q >= min_w) by (nonlinear_arith)
            requires
                count > 0,
                count * (min_w + gap) - gap <= less,
                less <= room,
                room - (count - 1) * gap < q * count + count,
        {
            assert(count * (min_w + gap) == count * min_w + count * gap);
            assert((count - 1) * gap == count * gap - gap);
        }
        assert(false);
    }
}

/// 96-DPI width of the chip behind which the windows are that got no button.
pub const OVERFLOW_W: u32 = 28;

/// 96-DPI width of a tray icon's cell.
pub const TRAY_CELL_W: u32 = 24;

/// How many of `wanted` cells go into `room`, at `pitch` pixels each.
pub open spec fn cells_in(room: int, pitch: int, wanted: int) -> int {
    if room < pitch {
        0
    } else {
        geometry::min_of(room / pitch, wanted)
    }
}

/// The cells go into their room.
pub proof fn lemma_cells_in(room: int, pitch: int, wanted: int)
    requires
        pitch > 0,
        wanted >= 0,
    ensures
        0 <= cells_in(room, pitch, wanted) <= wanted,
        0 <= cells_in(room, pitch, wanted) * pitch,
        cells_in(room, pitch, wanted) > 0 ==> cells_in(room, pitch, wanted) * pitch <= room,
        cells_in(room, pitch, wanted) == 0 ==> cells_in(room, pitch, wanted) * pitch == 0,
{
    let n = cells_in(room, pitch, wanted);
    if room >= pitch {
        let q = room / pitch;
        assert(0 < q && q * pitch <= room) by (nonlinear_arith)
            requires
                room >= pitch,
                pitch > 0,
                q == room / pitch,
        ;
        assert(0 <= n * pitch <= q * pitch) by (nonlinear_arith)
            requires
                0 <= n <= q,
                pitch > 0,
        ;
    }
    if n == 0 {
        assert(n * pitch == 0) by (nonlinear_arith)
            requires
                n == 0,
        ;
    }
}

/// How many of `wanted` cells go into `room`, at `pitch` pixels each, and how
/// much of it they take.
pub fn count_cells(room: i64, pitch: i64, wanted: usize) -> (r: (usize, i64))
    requires
        pitch > 0,
    ensures
        r.0 == cells_in(room as int, pitch as int, wanted as int),
        r.1 == cells_in(room as int, pitch as int, wanted as int) * pitch,
{
    proof {
        lemma_cells_in(room as int, pitch as int, wanted as int);
    }
    if room < pitch {
        return (0, 0);
    }
    proof {
        assert(0 <= room / pitch <= room) by (nonlinear_arith)
            requires
                room >= pitch,
                pitch > 0,
        ;
    }
    let q: u64 = (room / pitch) as u64;
    let n: usize = if q <= wanted as u64 {
        q as usize
    } else {
        wanted
    };
    (n, n as i64 * pitch)
}

/// What a bar of some size has to hold, and how it is shared out: from the left
/// the Start square, the pinned chips and the window buttons with the overflow
/// chip behind them; from the right the clock and the tray cells. Pinned chips
/// come first, then the tray; the overflow chip's place is kept wherever there
/// are windows.
pub ghost struct BarPlan {
    pub w: int,
    pub h: int,
    pub dpi: u32,
    pub pinned: int,
    pub tasks: int,
    pub tray: int,
}

impl BarPlan {
    pub open spec fn gap(self) -> int {
        at_dpi(BUTTON_GAP as int, self.dpi)
    }

    /// Height of everything on the bar, and side of the Start and pinned squares.
    pub open spec fn inner(self) -> int {
        inner_height(self.h, self.dpi)
    }

    /// Left edge of what follows the Start square.
    pub open spec fn left(self) -> int {
        buttons_left(self.h, self.dpi)
    }

    /// Right edge of everything but the clock.
    pub open spec fn right(self) -> int {
        self.w - at_dpi(CLOCK_RESERVE as int, self.dpi)
    }

    pub open spec fn pinned_pitch(self) -> int {
        self.inner() + self.gap()
    }

    pub open spec fn tray_cell(self) -> int {
        extent(TRAY_CELL_W as int, self.dpi)
    }

    pub open spec fn tray_pitch(self) -> int {
        self.tray_cell() + self.gap()
    }

    pub open spec fn chip(self) -> int {
        extent(OVERFLOW_W as int, self.dpi)
    }

    /// What is kept for the overflow chip.
    pub open spec fn kept(self) -> int {
        if self.tasks > 0 {
            self.chip() + self.gap()
        } else {
            0
        }
    }

    /// How many pinned chips are shown.
    pub open spec fn pinned_shown(self) -> int {
        cells_in(self.right() - self.left() - self.kept(), self.pinned_pitch(), self.pinned)
    }

    pub open spec fn pinned_width(self) -> int {
        self.pinned_shown() * self.pinned_pitch()
    }

    /// How many tray cells are shown.
    pub open spec fn tray_shown(self) -> int {
        cells_in(
            self.right() - self.left() - self.kept() - self.pinned_width(),
            self.tray_pitch(),
            self.tray,
        )
    }

    pub open spec fn tray_width(self) -> int {
        self.tray_shown() * self.tray_pitch()
    }

    /// Left edge of the first window button.
    pub open spec fn tasks_left(self) -> int {
        self.left() + self.pinned_width()
    }

    /// Left edge of the tray, and right edge of what is before it.
    pub open spec fn tray_left(self) -> int {
        self.right() - self.tray_width()
    }

    /// Width of a bar that has just the window buttons' share to give.
    pub open spec fn shared_w(self) -> int {
        self.w - self.pinned_width() - self.tray_width()
    }

    /// Whether some window gets no button.
    pub open spec fn overflows(self) -> bool {
        button_count(self.shared_w(), self.h, self.tasks, self.dpi) < self.tasks
    }

    /// The same, less the overflow chip where it is shown.
    pub open spec fn tasks_w(self) -> int {
        if self.overflows() {
            self.shared_w() - self.kept()
        } else {
            self.shared_w()
        }
    }

    pub open spec fn tasks_shown(self) -> int {
        button_count(self.tasks_w(), self.h, self.tasks, self.dpi)
    }

    pub open spec fn task_width(self) -> int {
        button_width(self.tasks_w(), self.h, self.tasks, self.dpi)
    }

    pub open spec fn task_pitch(self) -> int {
        self.task_width() + self.gap()
    }

    /// Right of the last window button and its gap.
    pub open spec fn tasks_end(self) -> int {
        self.tasks_left() + self.tasks_shown() * self.task_pitch()
    }

    /// The quantities of the plan are representable.
    pub open spec fn fits(self) -> bool {
        &&& start_fits(self.h, self.dpi)
        &&& geometry::is_i32(self.left())
        &&& geometry::is_i32(self.tasks_left())
        &&& self.tasks > 0 ==> {
            &&& geometry::is_i32(self.shared_w())
            &&& buttons_fit(self.shared_w(), self.h, self.tasks, self.dpi)
            &&& geometry::is_i32(self.tasks_w())
            &&& buttons_fit(self.tasks_w(), self.h, self.tasks, self.dpi)
            &&& geometry::is_i32(self.tasks_end())
        }
        &&& self.tray_shown() > 0 ==> {
            &&& geometry::is_i32(self.tray_left() + self.gap())
            &&& geometry::is_i32(self.right())
        }
    }
}

/// How a plan adds up: nothing is negative, no more is shown than there is, and
/// what is shown goes between the Start square and the clock.
pub proof fn lemma_bar_plan(p: BarPlan)
    requires
        p.pinned >= 0,
        p.tasks >= 0,
        p.tray >= 0,
    ensures
        p.gap() >= 0,
        p.inner() >= 1,
        p.tray_cell() >= 1,
        p.chip() >= 1,
        p.kept() >= 0,
        0 <= p.pinned_shown() <= p.pinned,
        0 <= p.tray_shown() <= p.tray,
        0 <= p.tasks_shown() <= p.tasks,
        0 <= p.pinned_width(),
        0 <= p.tray_width(),
        p.pinned_shown() > 0 || p.tray_shown() > 0 ==> p.tasks_left() + p.kept() <= p.tray_left(),
        p.pinned_shown() == 0 ==> p.pinned_width() == 0,
        p.tray_shown() == 0 ==> p.tray_width() == 0,
        p.tasks > 0 ==> p.task_width() >= 1,
        p.tasks > 0 ==> p.tasks_left() <= p.tasks_end(),
        p.tasks_shown() == 0 ==> p.tasks_end() == p.tasks_left(),
        p.overflows() <==> p.tasks_shown() < p.tasks,
        p.tasks_shown() > 0 ==> p.tasks_end() - p.gap() <= p.tray_left(),
        p.overflows() && (p.tasks_shown() > 0 || p.tray_shown() > 0 || p.pinned_shown() > 0)
            ==> p.tasks_end() + p.chip() <= p.tray_left(),
{
    lemma_small_lengths_scale(BUTTON_GAP as int, p.dpi);
    let room = p.right() - p.left() - p.kept();
    lemma_cells_in(room, p.pinned_pitch(), p.pinned);
    lemma_cells_in(room - p.pinned_width(), p.tray_pitch(), p.tray);
    lemma_buttons_span(p.shared_w(), p.h, p.tasks, p.dpi);
    lemma_buttons_span(p.tasks_w(), p.h, p.tasks, p.dpi);
    if p.overflows() {
        lemma_narrower_bars_overflow(p.shared_w(), p.tasks_w(), p.h, p.tasks, p.dpi);
    }
    if p.tasks > 0 {
        let n = p.tasks_shown();
        let pitch = p.task_pitch();
        assert(0 <= n * pitch) by (nonlinear_arith)
            requires
                0 <= n,
                0 <= pitch,
        ;
    }
    if p.tasks_shown() == 0 {
        assert(p.tasks_shown() * p.task_pitch() == 0) by (nonlinear_arith)
            requires
                p.tasks_shown() == 0,
        ;
    }
}

/// A bar of any size up to a million pixels a side, at up to a hundred times the
/// nominal DPI and with up to a hundred thousand pinned apps, windows and tray
/// icons each, can be laid out.
pub proof fn law_ordinary_plans_fit(p: BarPlan)
    requires
        -1_000_000 <= p.w <= 1_000_000,
        -1_000_000 <= p.h <= 1_000_000,
        p.dpi <= 9_600,
        0 <= p.pinned <= 100_000,
        0 <= p.tasks <= 100_000,
        0 <= p.tray <= 100_000,
    ensures
        p.fits(),
{
    lemma_bar_plan(p);
    assert(0 <= p.gap() <= 600);
    assert(0 <= p.chip() <= 2_800);
    assert(0 <= at_dpi(CLOCK_RESERVE as int, p.dpi) <= 8_800);
    assert(0 <= p.left() <= 1_002_000);
    law_ordinary_buttons_fit(p.shared_w(), p.h, p.tasks, p.dpi);
    law_ordinary_buttons_fit(p.tasks_w(), p.h, p.tasks, p.dpi);
}

/// Lengths that stand on a bar keep their value at ordinary DPIs.
pub proof fn lemma_ordinary_lengths_scale(px: int, dpi: u32)
    requires
        0 <= px <= 100_000,
        dpi <= 9_600,
    ensures
        at_dpi(px, dpi) == (px * dpi + 48) / 96,
        0 <= at_dpi(px, dpi) <= 10_000_001,
{
    assert(0 <= px * dpi <= 960_000_000) by (nonlinear_arith)
        requires
            0 <= px <= 100_000,
            0 <= dpi <= 9_600,
    ;
}

/// A rectangle covers its `w` by `h` points and no other: from its corner on,
/// up to but not with its far edges.
pub proof fn law_a_rectangle_covers_its_points(r: BarRect, dx: int, dy: int)
    ensures
        r.covers(r.x + dx, r.y + dy) <==> 0 <= dx < r.w && 0 <= dy < r.h,
{
}

/// A bar has its height and its margin, each scaled to the DPI and rounded to the
/// nearest pixel. The margin is the same on the left, on the right and below; a
/// screen that is too low loses the one below.
pub proof fn law_a_bar_keeps_its_margins(
    r: BarRect,
    screen_w: int,
    screen_h: int,
    height: u32,
    margin: u32,
    dpi: u32,
)
    requires
        is_bar_rect(r, screen_w, screen_h, height, margin, dpi),
        height <= 100_000,
        margin <= 100_000,
        dpi <= 9_600,
    ensures
        -48 < 96 * r.x - margin * dpi <= 48,
        height >= 1 && height * dpi >= 48 ==> -48 < 96 * r.h - height * dpi <= 48,
        height * dpi < 48 && dpi < 48 ==> r.h == 1,
        height == 0 && dpi >= 48 ==> -48 < 96 * r.h - dpi <= 48,
        screen_w > 2 * r.x ==> r.x + r.w + r.x == screen_w,
        screen_w <= 2 * r.x ==> r.w == 1,
        screen_h >= r.h + r.x ==> r.y + r.h + r.x == screen_h,
        screen_h < r.h + r.x ==> r.y == 0,
{
    lemma_ordinary_lengths_scale(margin as int, dpi);
    let at_least_one = geometry::max_of(height as int, 1);
    lemma_ordinary_lengths_scale(at_least_one, dpi);
    if height == 0 {
        assert(height * dpi == 0) by (nonlinear_arith)
            requires
                height == 0,
        ;
        assert(at_least_one * dpi == dpi) by (nonlinear_arith)
            requires
                at_least_one == 1,
        ;
    }
}

/// The Start button is a square, one edge pad from the left, with the same pad
/// above and below.
pub proof fn law_start_is_a_square(start: BarRect, bar_h: int, dpi: u32)
    requires
        is_start_rect(start, bar_h, dpi),
    ensures
        start.x == (10 * dpi + 48) / 96,
        start.y == (6 * dpi + 48) / 96,
        start.w == start.h,
        bar_h > 2 * start.y ==> start.y + start.h + start.y == bar_h,
        bar_h <= 2 * start.y ==> start.h == 1,
{
    lemma_small_lengths_scale(EDGE_PAD as int, dpi);
    lemma_small_lengths_scale(BUTTON_VPAD as int, dpi);
}

/// How many buttons there are, and how wide: as wide as the room allows up to
/// their greatest width, and as many as the room allows at their least.
pub proof fn lemma_buttons_share(bar_w: int, bar_h: int, count: int, dpi: u32)
    requires
        count > 0,
        1 <= dpi <= 9_600,
    ensures
        ({
            let gap = (6 * dpi + 48) / 96;
            let least = (48 * dpi + 48) / 96;
            let most = (180 * dpi + 48) / 96;
            let room = buttons_room(bar_w, bar_h, dpi);
            let n = button_count(bar_w, bar_h, count, dpi);
            let w = button_width(bar_w, bar_h, count, dpi);
            &&& 0 <= n <= count
            &&& n == count <==> count * (least + gap) - gap <= room
            &&& n == count ==> {
                &&& least <= w <= most
                &&& count * (w + gap) - gap <= room
                &&& w == most || count * (w + 1 + gap) - gap > room
            }
            &&& n < count ==> {
                &&& w == least
                &&& n > 0 ==> n * (least + gap) - gap <= room
                &&& (n + 1) * (least + gap) - gap > room
            }
        }),
{
    lemma_ordinary_lengths_scale(BUTTON_GAP as int, dpi);
    lemma_ordinary_lengths_scale(BUTTON_MIN_W as int, dpi);
    lemma_ordinary_lengths_scale(BUTTON_MAX_W as int, dpi);
    let gap = at_dpi(BUTTON_GAP as int, dpi);
    let least = extent(BUTTON_MIN_W as int, dpi);
    let most = extent(BUTTON_MAX_W as int, dpi);
    let room = buttons_room(bar_w, bar_h, dpi);
    let n = button_count(bar_w, bar_h, count, dpi);
    let w = button_width(bar_w, bar_h, count, dpi);
    let share = room - (count - 1) * gap;
    let fair = fair_width(bar_w, bar_h, count, dpi);
    assert(gap == (6 * dpi + 48) / 96);
    assert(least == (48 * dpi + 48) / 96);
    assert(most == (180 * dpi + 48) / 96);
    geometry::law_helpers_are_ordinary_arithmetic(share, count);
    geometry::law_helpers_are_ordinary_arithmetic(room + gap, least + gap);
    assert((count - 1) * gap == count * gap - gap) by (nonlinear_arith);
    assert(count * (least + gap) == count * least + count * gap) by (nonlinear_arith);
    if fair >= least {
        assert(fair * count >= count) by (nonlinear_arith)
            requires
                fair >= 1,
                count > 0,
        ;
        assert(share >= 0);
        assert(least * count <= fair * count) by (nonlinear_arith)
            requires
                least <= fair,
                count > 0,
        ;
        assert(w * count <= fair * count) by (nonlinear_arith)
            requires
                w <= fair,
                count > 0,
        ;
        assert(count * (w + gap) == w * count + count * gap) by (nonlinear_arith);
        assert(count * (w + 1 + gap) == w * count + count + count * gap) by (nonlinear_arith);
    } else {
        if count * (least + gap) - gap <= room {
            assert(false) by (nonlinear_arith)
                requires
                    count * least <= share,
                    share >= 0 ==> share < fair * count + count,
                    fair < least,
                    count > 0,
                    least >= 1,
            {
                assert(count * least >= 0);
                assert((fair + 1) * count <= least * count);
            }
        }
        let q = geometry::trunc_div(room + gap, least + gap);
        if room + gap >= 0 {
            assert(q >= 0) by (nonlinear_arith)
                requires
                    room + gap >= 0,
                    room + gap < q * (least + gap) + (least + gap),
                    least + gap > 0,
            ;
            assert((q + 1) * (least + gap) == q * (least + gap) + (least + gap))
                by (nonlinear_arith);
            if q >= count {
                assert(count * (least + gap) <= q * (least + gap)) by (nonlinear_arith)
                    requires
                        q >= count,
                        least + gap > 0,
                ;
                assert(false);
            }
            assert(n == q);
        } else {
            assert(q <= 0) by (nonlinear_arith)
                requires
                    room + gap < 0,
                    q * (least + gap) - (least + gap) < room + gap,
                    least + gap > 0,
            ;
            assert(n == 0);
        }
    }
}

/// The window buttons follow the Start button at one gap, each as high as it and
/// one gap from the next, and share the room up to the clock: all as wide as it
/// allows, up to their greatest width; where it does not allow their least width
/// for all, as many as it allows at that.
pub proof fn law_buttons_share_the_room(
    start: BarRect,
    rects: Seq<BarRect>,
    bar_w: int,
    bar_h: int,
    count: int,
    dpi: u32,
)
    requires
        count > 0,
        1 <= dpi <= 9_600,
        is_start_rect(start, bar_h, dpi),
        is_button_row(rects, bar_w, bar_h, count, dpi),
    ensures
        ({
            let gap = (6 * dpi + 48) / 96;
            let least = (48 * dpi + 48) / 96;
            let most = (180 * dpi + 48) / 96;
            let left = start.x + start.w + gap;
            let room = bar_w - (88 * dpi + 48) / 96 - left;
            let n = rects.len() as int;
            let w = rects[0].w;
            &&& n == count <==> count * (least + gap) - gap <= room
            &&& n == count ==> {
                &&& least <= w <= most
                &&& count * (w + gap) - gap <= room
                &&& w == most || count * (w + 1 + gap) - gap > room
            }
            &&& n < count ==> {
                &&& n > 0 ==> w == least && n * (least + gap) - gap <= room
                &&& (n + 1) * (least + gap) - gap > room
            }
            &&& forall|i: int|
                0 <= i < n ==> (#[trigger] rects[i]).is_at(
                    left + i * (w + gap),
                    start.y as int,
                    w as int,
                    start.h as int,
                )
        }),
{
    lemma_buttons_share(bar_w, bar_h, count, dpi);
    lemma_ordinary_lengths_scale(BUTTON_GAP as int, dpi);
    lemma_ordinary_lengths_scale(CLOCK_RESERVE as int, dpi);
    if rects.len() > 0 {
        assert(rects[0].w == button_width(bar_w, bar_h, count, dpi));
    }
}

/// As many cells go into a room as it has space for, and no more than there are.
pub proof fn law_cells_fill_their_room(room: int, pitch: int, wanted: int)
    requires
        pitch > 0,
        wanted >= 0,
    ensures
        ({
            let n = cells_in(room, pitch, wanted);
            &&& 0 <= n <= wanted
            &&& n > 0 ==> n * pitch <= room
            &&& n == wanted || (n + 1) * pitch > room
        }),
{
    lemma_cells_in(room, pitch, wanted);
    let n = cells_in(room, pitch, wanted);
    if room >= pitch {
        let q = room / pitch;
        assert((q + 1) * pitch > room) by (nonlinear_arith)
            requires
                q == room / pitch,
                pitch > 0,
                room >= 0,
        ;
    } else {
        assert((n + 1) * pitch == pitch) by (nonlinear_arith)
            requires
                n == 0,
        ;
    }
}

/// A click belongs to the first rectangle that covers it, and to none where none
/// does.
pub proof fn law_a_click_hits_the_first_rectangle(rects: Seq<BarRect>, i: int, x: int, y: int)
    requires
        rects.len() <= usize::MAX,
    ensures
        0 <= i < rects.len() && rects[i].x <= x < rects[i].x + rects[i].w && rects[i].y <= y
            < rects[i].y + rects[i].h && (forall|j: int|
            0 <= j < i ==> !(#[trigger] rects[j]).covers(x, y)) ==> first_rect(rects, x, y) == Some(
            i as usize,
        ),
        (forall|j: int| 0 <= j < rects.len() ==> !(#[trigger] rects[j]).covers(x, y)) ==> first_rect(
            rects,
            x,
            y,
        ) is None,
{
    lemma_first_rect(rects, x, y);
    if 0 <= i < rects.len() {
        assert(rects[i].covers(x, y) <==> rects[i].x <= x < rects[i].x + rects[i].w && rects[i].y
            <= y < rects[i].y + rects[i].h);
    }
}

/// The lengths of the bar, at 96 DPI.
pub proof fn law_the_bar_has_its_lengths()
    ensures
        CLOCK_RESERVE == 88,
        BUTTON_MAX_W == 180,
        BUTTON_MIN_W == 48,
        BUTTON_GAP == 6,
        BUTTON_VPAD == 6,
        EDGE_PAD == 10,
        OVERFLOW_W == 28,
        TRAY_CELL_W == 24,
{
}

} // verus!
