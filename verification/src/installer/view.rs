//! Geometry and hit-testing of the manager window: where every row, header and
//! button sits, and what a click lands on.
//!
//! The window is a fixed footer (two action buttons and a status line) over a
//! scrollable content region (title, component checklist, startup list).
//! Content rectangles are in content space, where y grows from 0 at the top of
//! the scrollable area; footer and button rectangles are in window space.
//! [`Layout::hit_test`] takes the scroll offset and reconciles the two.
use vstd::prelude::*;

use crate::geometry::{self, half, max_i32, min_i32, scale_length};

verus! {

broadcast use vstd::arithmetic::mul::lemma_mul_is_commutative;

/// A rectangle in physical pixels.
#[derive(Debug, Clone, Copy, PartialEq, Eq, Structural)]
pub struct ViewRect {
    pub x: i32,
    pub y: i32,
    pub w: i32,
    pub h: i32,
}

impl ViewRect {
    /// The half-open region a rectangle covers.
    pub open spec fn covers(self, x: int, y: int) -> bool {
        &&& self.x <= x < self.x + self.w
        &&& self.y <= y < self.y + self.h
    }

    /// Whether this rectangle is the one at `(x, y)` with extent `w` by `h`.
    pub open spec fn is_at(self, x: int, y: int, w: int, h: int) -> bool {
        self.x == x && self.y == y && self.w == w && self.h == h
    }

    /// Whether `self` lies inside `outer`.
    pub open spec fn inside(self, outer: ViewRect) -> bool {
        &&& outer.x <= self.x
        &&& self.x + self.w <= outer.x + outer.w
        &&& outer.y <= self.y
        &&& self.y + self.h <= outer.y + outer.h
    }

    /// Whether the point `(x, y)` lies in the rectangle.
    pub fn contains(&self, x: i32, y: i32) -> (r: bool)
        ensures
            r == self.covers(x as int, y as int),
    {
        x >= self.x && (x as i64) < self.x as i64 + self.w as i64 && y >= self.y && (y as i64)
            < self.y as i64 + self.h as i64
    }
}

/// Scale a 96-DPI length to physical pixels, rounding to nearest (the rule the
/// taskbar uses too).
pub fn scale(px: i32, dpi: u32) -> (r: i32)
    ensures
        r == geometry::scaled(px as int, dpi as int),
{
    scale_length(px, dpi)
}

// Layout constants at 96 DPI.
pub const MARGIN: i32 = 18;
pub const TITLE_H: i32 = 34;
pub const SUBTITLE_H: i32 = 22;
pub const SECTION_H: i32 = 30;
pub const ROW_H: i32 = 52;
pub const ROW_GAP: i32 = 6;
pub const SECTION_GAP: i32 = 14;
pub const FOOTER_H: i32 = 66;
pub const BTN_W: i32 = 132;
pub const BTN_H: i32 = 38;
pub const BTN_GAP: i32 = 10;
pub const CHECKBOX: i32 = 22;
pub const CHECKBOX_PAD: i32 = 14;

/// What a point in the window belongs to.
#[derive(Debug, Clone, Copy, PartialEq, Eq, Structural)]
pub enum Hit {
    /// Toggle component row `i`.
    Component(usize),
    /// Toggle startup-entry row `i`.
    Startup(usize),
    /// The "Restyle Now" button.
    RestyleNow,
    /// The "Undo / Restore Windows" button.
    Restore,
}

/// Everything laid out for one paint of the manager window.
#[derive(Debug, Clone, PartialEq, Eq)]
pub struct Layout {
    /// Title line (content space).
    pub title: ViewRect,
    /// Subtitle / current-state line (content space).
    pub subtitle: ViewRect,
    /// "Components" section header (content space).
    pub components_header: ViewRect,
    /// One row per component (content space).
    pub components: Vec<ViewRect>,
    /// "Startup programs" section header (content space).
    pub startup_header: ViewRect,
    /// One row per startup entry (content space).
    pub startup: Vec<ViewRect>,
    /// Total height of the scrollable content.
    pub content_height: i32,
    /// Height of the scroll viewport (client height minus the footer).
    pub viewport_h: i32,
    /// The footer bar (window space).
    pub footer: ViewRect,
    /// Status-text area in the footer (window space).
    pub status: ViewRect,
    /// "Undo / Restore" button (window space).
    pub restore_btn: ViewRect,
    /// "Restyle Now" button (window space).
    pub restyle_btn: ViewRect,
}

/// A 96-DPI length in physical pixels.
pub open spec fn at_dpi(px: int, dpi: u32) -> int {
    geometry::scaled(px, dpi as int) as int
}

/// A 96-DPI extent in physical pixels, never less than one pixel.
pub open spec fn extent(px: int, dpi: u32) -> int {
    geometry::max_of(at_dpi(px, dpi), 1)
}

/// The distance from the top of one row to the top of the next.
pub open spec fn pitch(dpi: u32) -> int {
    extent(ROW_H as int, dpi) + at_dpi(ROW_GAP as int, dpi)
}

/// The width every content rectangle has.
pub open spec fn content_width(client_w: int, dpi: u32) -> int {
    geometry::max_of(client_w - 2 * at_dpi(MARGIN as int, dpi), 1)
}

/// Top of the subtitle: one margin and one title down.
pub open spec fn subtitle_top(dpi: u32) -> int {
    at_dpi(MARGIN as int, dpi) + extent(TITLE_H as int, dpi)
}

/// Top of the "Components" header.
pub open spec fn components_header_top(dpi: u32) -> int {
    subtitle_top(dpi) + extent(SUBTITLE_H as int, dpi) + at_dpi(SECTION_GAP as int, dpi)
}

/// Top of the first component row.
pub open spec fn components_top(dpi: u32) -> int {
    components_header_top(dpi) + extent(SECTION_H as int, dpi)
}

/// Top of the "Startup programs" header, below `components` rows.
pub open spec fn startup_header_top(dpi: u32, components: int) -> int {
    components_top(dpi) + components * pitch(dpi) + at_dpi(SECTION_GAP as int, dpi)
}

/// Top of the first startup row.
pub open spec fn startup_top(dpi: u32, components: int) -> int {
    startup_header_top(dpi, components) + extent(SECTION_H as int, dpi)
}

/// Height of the whole content, with one margin below the last row.
pub open spec fn content_extent(dpi: u32, components: int, startup: int) -> int {
    startup_top(dpi, components) + startup * pitch(dpi) + at_dpi(MARGIN as int, dpi)
}

/// Top of the footer: the bottom of the window, or 0 in a window too short.
pub open spec fn footer_top(client_h: int, dpi: u32) -> int {
    geometry::max_of(client_h - extent(FOOTER_H as int, dpi), 0)
}

/// Top of both buttons: centred in the footer.
pub open spec fn button_top(client_h: int, dpi: u32) -> int {
    footer_top(client_h, dpi) + geometry::trunc_div(
        extent(FOOTER_H as int, dpi) - extent(BTN_H as int, dpi),
        2,
    )
}

/// Left edge of "Restyle Now": one margin from the right edge of the window.
pub open spec fn restyle_left(client_w: int, dpi: u32) -> int {
    geometry::max_of(
        client_w - at_dpi(MARGIN as int, dpi) - extent(BTN_W as int, dpi),
        0,
    )
}

/// Left edge of "Undo / Restore": one gap left of "Restyle Now".
pub open spec fn restore_left(client_w: int, dpi: u32) -> int {
    geometry::max_of(
        restyle_left(client_w, dpi) - at_dpi(BTN_GAP as int, dpi) - extent(BTN_W as int, dpi),
        0,
    )
}

/// Whether `rows` are `count` full-width rows at `x`, the first at `top`, each
/// one pitch below the one before.
pub open spec fn rows_stack(
    rows: Seq<ViewRect>,
    count: int,
    x: int,
    top: int,
    w: int,
    h: int,
    step: int,
) -> bool {
    &&& rows.len() == count
    &&& forall|i: int|
        #![trigger rows[i]]
        0 <= i < count ==> rows[i].is_at(x, top + i * step, w, h)
}

/// Every quantity of a layout is representable as an `i32`, so that it can be
/// computed at all.
pub open spec fn layout_fits(
    client_w: int,
    client_h: int,
    dpi: u32,
    components: int,
    startup: int,
) -> bool {
    let m = at_dpi(MARGIN as int, dpi);
    let gap = at_dpi(SECTION_GAP as int, dpi);
    let btn_w = extent(BTN_W as int, dpi);
    &&& crate::geometry::is_i32(2 * m)
    &&& crate::geometry::is_i32(client_w - 2 * m)
    &&& crate::geometry::is_i32(subtitle_top(dpi))
    &&& crate::geometry::is_i32(extent(SUBTITLE_H as int, dpi) + gap)
    &&& crate::geometry::is_i32(components_header_top(dpi))
    &&& crate::geometry::is_i32(components_top(dpi))
    &&& crate::geometry::is_i32(pitch(dpi))
    &&& crate::geometry::is_i32(components_top(dpi) + components * pitch(dpi))
    &&& crate::geometry::is_i32(startup_header_top(dpi, components))
    &&& crate::geometry::is_i32(startup_top(dpi, components))
    &&& crate::geometry::is_i32(startup_top(dpi, components) + startup * pitch(dpi))
    &&& crate::geometry::is_i32(content_extent(dpi, components, startup))
    &&& crate::geometry::is_i32(client_h - extent(FOOTER_H as int, dpi))
    &&& crate::geometry::is_i32(extent(FOOTER_H as int, dpi) - extent(BTN_H as int, dpi))
    &&& crate::geometry::is_i32(button_top(client_h, dpi))
    &&& crate::geometry::is_i32(client_w - m)
    &&& crate::geometry::is_i32(client_w - m - btn_w)
    &&& crate::geometry::is_i32(restyle_left(client_w, dpi) - at_dpi(BTN_GAP as int, dpi))
    &&& crate::geometry::is_i32(
        restyle_left(client_w, dpi) - at_dpi(BTN_GAP as int, dpi) - btn_w,
    )
    &&& crate::geometry::is_i32(restore_left(client_w, dpi) - 2 * m)
}

impl Layout {
    /// Whether this is the layout of a `client_w` by `client_h` window at `dpi`
    /// with `components` component rows and `startup` startup rows.
    pub open spec fn is_layout_of(
        &self,
        client_w: int,
        client_h: int,
        dpi: u32,
        components: int,
        startup: int,
    ) -> bool {
        let m = at_dpi(MARGIN as int, dpi);
        let w = content_width(client_w, dpi);
        let row_h = extent(ROW_H as int, dpi);
        let section_h = extent(SECTION_H as int, dpi);
        let footer_h = extent(FOOTER_H as int, dpi);
        let footer_y = footer_top(client_h, dpi);
        let btn_w = extent(BTN_W as int, dpi);
        let btn_h = extent(BTN_H as int, dpi);
        let btn_y = button_top(client_h, dpi);
        &&& self.title.is_at(m, m, w, extent(TITLE_H as int, dpi))
        &&& self.subtitle.is_at(m, subtitle_top(dpi), w, extent(SUBTITLE_H as int, dpi))
        &&& self.components_header.is_at(m, components_header_top(dpi), w, section_h)
        &&& rows_stack(
            self.components@,
            components,
            m,
            components_top(dpi),
            w,
            row_h,
            pitch(dpi),
        )
        &&& self.startup_header.is_at(m, startup_header_top(dpi, components), w, section_h)
        &&& rows_stack(
            self.startup@,
            startup,
            m,
            startup_top(dpi, components),
            w,
            row_h,
            pitch(dpi),
        )
        &&& self.content_height == content_extent(dpi, components, startup)
        &&& self.viewport_h == footer_y
        &&& self.footer.is_at(0, footer_y, geometry::max_of(client_w, 1), footer_h)
        &&& self.restyle_btn.is_at(restyle_left(client_w, dpi), btn_y, btn_w, btn_h)
        &&& self.restore_btn.is_at(restore_left(client_w, dpi), btn_y, btn_w, btn_h)
        &&& self.status.is_at(
            m,
            footer_y,
            geometry::max_of(restore_left(client_w, dpi) - 2 * m, 1),
            footer_h,
        )
    }
}

/// Lay out the whole window. `client_w` and `client_h` are the client area in
/// physical pixels; `dpi` scales the 96-DPI constants. No rectangle ever has a
/// zero extent, however small the window is.
pub fn layout(
    client_w: i32,
    client_h: i32,
    dpi: u32,
    component_count: usize,
    startup_count: usize,
) -> (l: Layout)
    requires
        layout_fits(
            client_w as int,
            client_h as int,
            dpi,
            component_count as int,
            startup_count as int,
        ),
    ensures
        l.is_layout_of(
            client_w as int,
            client_h as int,
            dpi,
            component_count as int,
            startup_count as int,
        ),
{
    let m: i32 = scale(MARGIN, dpi);
    let row_h: i32 = max_i32(scale(ROW_H, dpi), 1);
    let row_gap: i32 = scale(ROW_GAP, dpi);
    let section_gap: i32 = scale(SECTION_GAP, dpi);
    let footer_h: i32 = max_i32(scale(FOOTER_H, dpi), 1);
    let content_w: i32 = max_i32(client_w - 2 * m, 1);

    // Content region (scrollable), laid out top-down in content space.
    let mut y: i32 = m;
    let title = ViewRect { x: m, y, w: content_w, h: max_i32(scale(TITLE_H, dpi), 1) };
    y = y + title.h;
    let subtitle = ViewRect { x: m, y, w: content_w, h: max_i32(scale(SUBTITLE_H, dpi), 1) };
    y = y + (subtitle.h + section_gap);

    let components_header = ViewRect {
        x: m,
        y,
        w: content_w,
        h: max_i32(scale(SECTION_H, dpi), 1),
    };
    y = y + components_header.h;
    let components = stack_rows(m, &mut y, content_w, row_h, row_gap, component_count);

    y = y + section_gap;
    let startup_header = ViewRect {
        x: m,
        y,
        w: content_w,
        h: max_i32(scale(SECTION_H, dpi), 1),
    };
    y = y + startup_header.h;
    let startup = stack_rows(m, &mut y, content_w, row_h, row_gap, startup_count);

    let content_height: i32 = y + m;

    // Footer (fixed, window space).
    let footer_y: i32 = max_i32(client_h - footer_h, 0);
    let viewport_h: i32 = footer_y;
    let footer = ViewRect { x: 0, y: footer_y, w: max_i32(client_w, 1), h: footer_h };
    let btn_w: i32 = max_i32(scale(BTN_W, dpi), 1);
    let btn_h: i32 = max_i32(scale(BTN_H, dpi), 1);
    let btn_gap: i32 = scale(BTN_GAP, dpi);
    let btn_y: i32 = footer_y + half(footer_h - btn_h);
    let restyle_btn = ViewRect {
        x: max_i32(client_w - m - btn_w, 0),
        y: btn_y,
        w: btn_w,
        h: btn_h,
    };
    let restore_btn = ViewRect {
        x: max_i32(restyle_btn.x - btn_gap - btn_w, 0),
        y: btn_y,
        w: btn_w,
        h: btn_h,
    };
    let status = ViewRect {
        x: m,
        y: footer_y,
        w: max_i32(restore_btn.x - 2 * m, 1),
        h: footer_h,
    };

    Layout {
        title,
        subtitle,
        components_header,
        components,
        startup_header,
        startup,
        content_height,
        viewport_h,
        footer,
        status,
        restore_btn,
        restyle_btn,
    }
}

/// Stack `count` full-width rows starting at `*y`, advancing `*y` past them.
pub fn stack_rows(x: i32, y: &mut i32, w: i32, h: i32, gap: i32, count: usize) -> (rows: Vec<
    ViewRect,
>)
    requires
        crate::geometry::is_i32(h + gap),
        crate::geometry::is_i32(*old(y) + count * (h + gap)),
    ensures
        rows_stack(rows@, count as int, x as int, *old(y) as int, w as int, h as int, h + gap),
        *final(y) == *old(y) + count * (h + gap),
{
    let mut rows: Vec<ViewRect> = Vec::with_capacity(count);
    let ghost top: int = *y as int;
    let mut i: usize = 0;
    proof {
        assert(top + 0 * (h + gap) == top);
    }
    while i < count
        invariant
            i <= count,
            crate::geometry::is_i32(h + gap),
            crate::geometry::is_i32(top),
            crate::geometry::is_i32(top + count * (h + gap)),
            *y == top + i * (h + gap),
            rows_stack(rows@, i as int, x as int, top, w as int, h as int, h + gap),
        decreases count - i,
    {
        proof {
            geometry::lemma_progression_between(top, h + gap, i + 1, count as int);
            assert((i + 1) * (h + gap) == i * (h + gap) + (h + gap)) by (nonlinear_arith);
        }
        rows.push(ViewRect { x, y: *y, w, h });
        *y = *y + (h + gap);
        i = i + 1;
    }
    rows
}

/// The index of the first row that covers `(x, y)`.
pub open spec fn first_row(rows: Seq<ViewRect>, x: int, y: int) -> Option<usize>
    decreases rows.len(),
{
    if rows.len() == 0 {
        None
    } else {
        match first_row(rows.drop_last(), x, y) {
            Some(i) => Some(i),
            None => if rows.last().covers(x, y) {
                Some((rows.len() - 1) as usize)
            } else {
                None
            },
        }
    }
}

/// `first_row` finds a row exactly when one covers the point, and finds the
/// first such row.
pub proof fn lemma_first_row(rows: Seq<ViewRect>, x: int, y: int)
    requires
        rows.len() <= usize::MAX,
    ensures
        match first_row(rows, x, y) {
            Some(i) => {
                &&& i < rows.len()
                &&& rows[i as int].covers(x, y)
                &&& forall|j: int| 0 <= j < i ==> !(#[trigger] rows[j]).covers(x, y)
            },
            None => forall|j: int| 0 <= j < rows.len() ==> !(#[trigger] rows[j]).covers(x, y),
        },
    decreases rows.len(),
{
    if rows.len() > 0 {
        let init = rows.drop_last();
        lemma_first_row(init, x, y);
        assert forall|j: int| 0 <= j < rows.len() - 1 implies #[trigger] rows[j] == init[j] by {}
    }
}

/// The index of the first of `rows` that contains the point.
fn find_row(rows: &Vec<ViewRect>, x: i32, y: i32) -> (r: Option<usize>)
    ensures
        r == first_row(rows@, x as int, y as int),
{
    let mut i: usize = 0;
    while i < rows.len()
        invariant
            i <= rows.len(),
            first_row(rows@.take(i as int), x as int, y as int) is None,
        decreases rows.len() - i,
    {
        proof {
            let next = rows@.take(i + 1);
            assert(next.drop_last() =~= rows@.take(i as int));
            assert(next.last() == rows@[i as int]);
        }
        if rows[i].contains(x, y) {
            proof {
                lemma_first_row(rows@, x as int, y as int);
                lemma_first_row(rows@.take(i as int), x as int, y as int);
                assert forall|j: int| 0 <= j < i implies !(#[trigger] rows@[j]).covers(
                    x as int,
                    y as int,
                ) by {
                    assert(rows@[j] == rows@.take(i as int)[j]);
                }
            }
            return Some(i);
        }
        i = i + 1;
    }
    proof {
        assert(rows@.take(rows@.len() as int) =~= rows@);
    }
    None
}

impl Layout {
    /// The largest valid scroll offset.
    pub open spec fn scroll_limit(&self) -> int {
        geometry::max_of(self.content_height - self.viewport_h, 0)
    }

    /// `scroll` moved into `[0, scroll_limit]`.
    pub open spec fn scroll_within(&self, scroll: int) -> int {
        if scroll < 0 {
            0
        } else {
            geometry::min_of(scroll, self.scroll_limit())
        }
    }

    /// What a click at `(x, y)` lands on: a button or nothing in the footer,
    /// and above it the first row that covers the point in content space.
    pub open spec fn hit_at(&self, x: int, y: int, scroll: int) -> Option<Hit> {
        if y >= self.footer.y {
            if self.restyle_btn.covers(x, y) {
                Some(Hit::RestyleNow)
            } else if self.restore_btn.covers(x, y) {
                Some(Hit::Restore)
            } else {
                None
            }
        } else {
            match first_row(self.components@, x, y + scroll) {
                Some(i) => Some(Hit::Component(i)),
                None => match first_row(self.startup@, x, y + scroll) {
                    Some(i) => Some(Hit::Startup(i)),
                    None => None,
                },
            }
        }
    }

    /// The largest valid scroll offset (0 when the content fits).
    pub fn max_scroll(&self) -> (r: i32)
        requires
            geometry::is_i32(self.content_height - self.viewport_h),
        ensures
            r == self.scroll_limit(),
    {
        max_i32(self.content_height - self.viewport_h, 0)
    }

    /// Clamp a proposed scroll offset to `[0, max_scroll]`.
    pub fn clamp_scroll(&self, scroll: i32) -> (r: i32)
        requires
            geometry::is_i32(self.content_height - self.viewport_h),
        ensures
            r == self.scroll_within(scroll as int),
    {
        max_i32(min_i32(scroll, self.max_scroll()), 0)
    }

    /// The checkbox square inside a row (for drawing and centred hit feedback).
    pub fn checkbox_rect(&self, row: &ViewRect, dpi: u32) -> (r: ViewRect)
        requires
            geometry::is_i32(row.x + at_dpi(CHECKBOX_PAD as int, dpi)),
            geometry::is_i32(row.h - extent(CHECKBOX as int, dpi)),
            geometry::is_i32(
                row.y + geometry::trunc_div(row.h - extent(CHECKBOX as int, dpi), 2),
            ),
        ensures
            is_checkbox_of(r, *row, dpi),
    {
        let side: i32 = max_i32(scale(CHECKBOX, dpi), 1);
        ViewRect {
            x: row.x + scale(CHECKBOX_PAD, dpi),
            y: row.y + half(row.h - side),
            w: side,
            h: side,
        }
    }

    /// Where a click at window point `(x, y)` lands, given the current
    /// `scroll`. Footer buttons are tested in window space; content rows are
    /// tested after translating into content space, and only within the
    /// viewport (never under the footer).
    pub fn hit_test(&self, x: i32, y: i32, scroll: i32) -> (r: Option<Hit>)
        requires
            y < self.footer.y ==> geometry::is_i32(y + scroll),
        ensures
            r == self.hit_at(x as int, y as int, scroll as int),
    {
        if y >= self.footer.y {
            if self.restyle_btn.contains(x, y) {
                return Some(Hit::RestyleNow);
            }
            if self.restore_btn.contains(x, y) {
                return Some(Hit::Restore);
            }
            return None;
        }
        // Inside the scroll viewport: map to content space.
        let cy: i32 = y + scroll;
        if let Some(i) = find_row(&self.components, x, cy) {
            return Some(Hit::Component(i));
        }
        if let Some(i) = find_row(&self.startup, x, cy) {
            return Some(Hit::Startup(i));
        }
        None
    }
}

/// Whether `r` is the checkbox square of `row`: one pad in from the left,
/// centred vertically.
pub open spec fn is_checkbox_of(r: ViewRect, row: ViewRect, dpi: u32) -> bool {
    let side = extent(CHECKBOX as int, dpi);
    r.is_at(
        row.x + at_dpi(CHECKBOX_PAD as int, dpi),
        row.y + geometry::trunc_div(row.h - side, 2),
        side,
        side,
    )
}

/// A length of at most 47 pixels keeps its sign and its value at any DPI.
pub proof fn lemma_small_lengths_scale(px: int, dpi: u32)
    requires
        0 <= px <= 47,
    ensures
        at_dpi(px, dpi) == (px * dpi + 48) / 96,
        at_dpi(px, dpi) >= 0,
{
    assert(0 <= px * dpi <= 47 * 0xffff_ffff) by (nonlinear_arith)
        requires
            0 <= px <= 47,
            0 <= dpi <= 0xffff_ffff,
    ;
}

/// No rectangle of a layout has a zero extent, whatever the window size, the
/// DPI and the number of rows.
pub proof fn law_no_zero_extents(
    l: Layout,
    client_w: int,
    client_h: int,
    dpi: u32,
    components: int,
    startup: int,
)
    requires
        l.is_layout_of(client_w, client_h, dpi, components, startup),
    ensures
        l.title.w >= 1 && l.title.h >= 1,
        l.subtitle.w >= 1 && l.subtitle.h >= 1,
        l.components_header.w >= 1 && l.components_header.h >= 1,
        l.startup_header.w >= 1 && l.startup_header.h >= 1,
        l.footer.w >= 1 && l.footer.h >= 1,
        l.status.w >= 1 && l.status.h >= 1,
        l.restore_btn.w >= 1 && l.restore_btn.h >= 1,
        l.restyle_btn.w >= 1 && l.restyle_btn.h >= 1,
        forall|i: int|
            0 <= i < components ==> (#[trigger] l.components@[i]).w >= 1 && l.components@[i].h >= 1,
        forall|i: int|
            0 <= i < startup ==> (#[trigger] l.startup@[i]).w >= 1 && l.startup@[i].h >= 1,
{
}

/// Stacked rows come one below the other and never overlap.
proof fn lemma_stack_in_order(
    rows: Seq<ViewRect>,
    count: int,
    x: int,
    top: int,
    w: int,
    h: int,
    step: int,
    i: int,
    j: int,
)
    requires
        rows_stack(rows, count, x, top, w, h, step),
        1 <= h <= step,
        0 <= i < j < count,
    ensures
        rows[i].y + rows[i].h <= rows[j].y,
{
    assert(rows[i].is_at(x, top + i * step, w, h));
    assert(rows[j].is_at(x, top + j * step, w, h));
    assert(i * step + h <= j * step) by (nonlinear_arith)
        requires
            1 <= h <= step,
            0 <= i < j,
    {
        assert((i + 1) * step <= j * step);
        assert((i + 1) * step == i * step + step);
    }
}

/// Rows stack in order without overlap: each component row ends above the
/// next, the last ends above the startup header, the header ends where the
/// startup rows begin, and those stack in the same way.
pub proof fn law_rows_stack_in_order(
    l: Layout,
    client_w: int,
    client_h: int,
    dpi: u32,
    components: int,
    startup: int,
)
    requires
        l.is_layout_of(client_w, client_h, dpi, components, startup),
    ensures
        forall|i: int, j: int|
            0 <= i < j < components ==> (#[trigger] l.components@[i]).y + l.components@[i].h <= (
            #[trigger] l.components@[j]).y,
        forall|i: int, j: int|
            0 <= i < j < startup ==> (#[trigger] l.startup@[i]).y + l.startup@[i].h <= (
            #[trigger] l.startup@[j]).y,
        forall|i: int|
            0 <= i < components ==> (#[trigger] l.components@[i]).y + l.components@[i].h
                <= l.startup_header.y,
        forall|i: int|
            0 <= i < startup ==> l.startup_header.y + l.startup_header.h <= (
            #[trigger] l.startup@[i]).y,
{
    lemma_small_lengths_scale(ROW_GAP as int, dpi);
    lemma_small_lengths_scale(SECTION_GAP as int, dpi);
    let m = at_dpi(MARGIN as int, dpi);
    let w = content_width(client_w, dpi);
    let h = extent(ROW_H as int, dpi);
    let step = pitch(dpi);
    assert forall|i: int, j: int| 0 <= i < j < components implies (#[trigger] l.components@[i]).y
        + l.components@[i].h <= (#[trigger] l.components@[j]).y by {
        lemma_stack_in_order(l.components@, components, m, components_top(dpi), w, h, step, i, j);
    }
    assert forall|i: int, j: int| 0 <= i < j < startup implies (#[trigger] l.startup@[i]).y
        + l.startup@[i].h <= (#[trigger] l.startup@[j]).y by {
        lemma_stack_in_order(
            l.startup@,
            startup,
            m,
            startup_top(dpi, components),
            w,
            h,
            step,
            i,
            j,
        );
    }
    assert forall|i: int| 0 <= i < components implies (#[trigger] l.components@[i]).y
        + l.components@[i].h <= l.startup_header.y by {
        assert(i * step + h <= components * step) by (nonlinear_arith)
            requires
                1 <= h <= step,
                0 <= i < components,
        {
            assert((i + 1) * step <= components * step);
            assert((i + 1) * step == i * step + step);
        }
    }
    assert forall|i: int| 0 <= i < startup implies l.startup_header.y + l.startup_header.h <= (
    #[trigger] l.startup@[i]).y by {
        assert(0 <= i * step) by (nonlinear_arith)
            requires
                1 <= step,
                0 <= i,
        ;
    }
}

/// More rows make the content taller.
pub proof fn law_content_grows_with_rows(
    dpi: u32,
    components: int,
    startup: int,
    more_components: int,
    more_startup: int,
)
    requires
        components <= more_components,
        startup <= more_startup,
        components < more_components || startup < more_startup,
    ensures
        content_extent(dpi, components, startup) < content_extent(
            dpi,
            more_components,
            more_startup,
        ),
{
    lemma_small_lengths_scale(ROW_GAP as int, dpi);
    let step = pitch(dpi);
    assert(components * step + startup * step < more_components * step + more_startup * step)
        by (nonlinear_arith)
        requires
            1 <= step,
            components <= more_components,
            startup <= more_startup,
            components < more_components || startup < more_startup,
    ;
}

/// The footer is pinned to the bottom of any window that is as tall as it, and
/// holds both buttons wherever a button is no taller than the footer.
pub proof fn law_footer_is_pinned(
    l: Layout,
    client_w: int,
    client_h: int,
    dpi: u32,
    components: int,
    startup: int,
)
    requires
        l.is_layout_of(client_w, client_h, dpi, components, startup),
        client_h >= extent(FOOTER_H as int, dpi),
        extent(BTN_H as int, dpi) <= extent(FOOTER_H as int, dpi),
    ensures
        l.footer.y + l.footer.h == client_h,
        l.viewport_h == l.footer.y,
        l.footer.y <= l.restyle_btn.y,
        l.restyle_btn.y + l.restyle_btn.h <= l.footer.y + l.footer.h,
        l.footer.y <= l.restore_btn.y,
        l.restore_btn.y + l.restore_btn.h <= l.footer.y + l.footer.h,
{
}

/// "Restore" stands left of "Restyle Now" without overlap, and the status text
/// does not run under it, in a window wide enough for both buttons and a
/// margin.
pub proof fn law_footer_reads_left_to_right(
    l: Layout,
    client_w: int,
    client_h: int,
    dpi: u32,
    components: int,
    startup: int,
)
    requires
        l.is_layout_of(client_w, client_h, dpi, components, startup),
        restyle_left(client_w, dpi) >= at_dpi(BTN_GAP as int, dpi) + extent(BTN_W as int, dpi),
        restore_left(client_w, dpi) > at_dpi(MARGIN as int, dpi),
    ensures
        l.status.x + l.status.w <= l.restore_btn.x,
        l.restore_btn.x + l.restore_btn.w <= l.restyle_btn.x,
{
    lemma_small_lengths_scale(MARGIN as int, dpi);
    lemma_small_lengths_scale(BTN_GAP as int, dpi);
}

/// A click in the footer never toggles a row, whatever the scroll offset.
pub proof fn law_footer_clicks_never_toggle(l: Layout, x: int, y: int, scroll: int)
    requires
        y >= l.footer.y,
    ensures
        !(l.hit_at(x, y, scroll) matches Some(Hit::Component(_))),
        !(l.hit_at(x, y, scroll) matches Some(Hit::Startup(_))),
{
}

/// A click on a row that is in view hits that row and no other.
pub proof fn law_row_click_hits_that_row(
    l: Layout,
    client_w: int,
    client_h: int,
    dpi: u32,
    components: int,
    startup: int,
    x: int,
    y: int,
    scroll: int,
)
    requires
        l.is_layout_of(client_w, client_h, dpi, components, startup),
        components <= usize::MAX,
        startup <= usize::MAX,
        y < l.footer.y,
    ensures
        forall|i: usize|
            i < components && (#[trigger] l.components@[i as int]).covers(x, y + scroll)
                ==> l.hit_at(x, y, scroll) == Some(Hit::Component(i)),
        forall|i: usize|
            i < startup && (#[trigger] l.startup@[i as int]).covers(x, y + scroll) ==> l.hit_at(
                x,
                y,
                scroll,
            ) == Some(Hit::Startup(i)),
{
    law_rows_stack_in_order(l, client_w, client_h, dpi, components, startup);
    law_no_zero_extents(l, client_w, client_h, dpi, components, startup);
    lemma_first_row(l.components@, x, y + scroll);
    lemma_first_row(l.startup@, x, y + scroll);
    assert forall|i: usize|
        i < components && (#[trigger] l.components@[i as int]).covers(
            x,
            y + scroll,
        ) implies l.hit_at(x, y, scroll) == Some(Hit::Component(i)) by {
        let k = first_row(l.components@, x, y + scroll)->0;
        if k != i {
            assert(l.components@[k as int].covers(x, y + scroll));
        }
    }
    assert forall|i: usize|
        i < startup && (#[trigger] l.startup@[i as int]).covers(x, y + scroll) implies l.hit_at(
        x,
        y,
        scroll,
    ) == Some(Hit::Startup(i)) by {
        if let Some(k) = first_row(l.components@, x, y + scroll) {
            assert(l.components@[k as int].covers(x, y + scroll));
            assert(false);
        }
        let k = first_row(l.startup@, x, y + scroll)->0;
        if k != i {
            assert(l.startup@[k as int].covers(x, y + scroll));
        }
    }
}

/// The checkbox square lies inside its row, wherever the row has room for it.
pub proof fn law_checkbox_sits_in_its_row(r: ViewRect, row: ViewRect, dpi: u32)
    requires
        is_checkbox_of(r, row, dpi),
        at_dpi(CHECKBOX_PAD as int, dpi) + extent(CHECKBOX as int, dpi) <= row.w,
        extent(CHECKBOX as int, dpi) <= row.h,
    ensures
        r.inside(row),
        r.w == r.h,
{
    lemma_small_lengths_scale(CHECKBOX_PAD as int, dpi);
}

/// Clamping a scroll offset lands in `[0, scroll_limit]`, keeps an offset that
/// is already there, and so changes nothing the second time.
pub proof fn law_clamped_scroll_is_valid(l: Layout, scroll: int)
    ensures
        0 <= l.scroll_within(scroll) <= l.scroll_limit(),
        0 <= scroll <= l.scroll_limit() ==> l.scroll_within(scroll) == scroll,
        l.scroll_within(l.scroll_within(scroll)) == l.scroll_within(scroll),
{
}

/// A window of any size up to a million pixels a side, at up to a hundred
/// times the nominal DPI and with up to ten thousand rows in each list, can be
/// laid out.
pub proof fn law_ordinary_windows_fit(
    client_w: int,
    client_h: int,
    dpi: u32,
    components: int,
    startup: int,
)
    requires
        -1_000_000 <= client_w <= 1_000_000,
        -1_000_000 <= client_h <= 1_000_000,
        dpi <= 9_600,
        0 <= components <= 10_000,
        0 <= startup <= 10_000,
    ensures
        layout_fits(client_w, client_h, dpi, components, startup),
{
    assert(0 <= pitch(dpi) <= 6_000);
    assert(0 <= components * pitch(dpi) <= 60_000_000) by (nonlinear_arith)
        requires
            0 <= pitch(dpi) <= 6_000,
            0 <= components <= 10_000,
    ;
    assert(0 <= startup * pitch(dpi) <= 60_000_000) by (nonlinear_arith)
        requires
            0 <= pitch(dpi) <= 6_000,
            0 <= startup <= 10_000,
    ;
}

proof fn lemma_view_length(px: int, dpi: u32)
    requires
        1 <= px <= 1000,
        96 <= dpi <= 9_600,
    ensures
        at_dpi(px, dpi) == (px * dpi + 48) / 96,
        extent(px, dpi) == (px * dpi + 48) / 96,
        at_dpi(px, dpi) >= px,
{
    assert(96 * px <= px * dpi <= 9_600_000) by (nonlinear_arith)
        requires
            1 <= px <= 1000,
            96 <= dpi <= 9_600,
    ;
}

/// The content from top to bottom, inside a margin of 18: a title of 34, a line of
/// 22, a gap of 14, a header of 30, the component rows of 52 with 6 between them,
/// a gap, a header and the startup rows, and the margin again; all at the
/// window's DPI.
pub proof fn law_content_stands_from_top_to_bottom(
    l: Layout,
    client_w: int,
    client_h: int,
    dpi: u32,
    components: int,
    startup: int,
    i: int,
)
    requires
        l.is_layout_of(client_w, client_h, dpi, components, startup),
        96 <= dpi <= 9_600,
        components > 0,
        startup > 0,
    ensures
        l.title.x == (18 * dpi + 48) / 96 && l.title.y == l.title.x,
        client_w > 2 * l.title.x ==> l.title.x + l.title.w == client_w - l.title.x,
        l.title.h == (34 * dpi + 48) / 96,
        l.subtitle.x == l.title.x && l.subtitle.w == l.title.w,
        l.subtitle.y == l.title.y + l.title.h,
        l.subtitle.h == (22 * dpi + 48) / 96,
        l.components_header.x == l.title.x && l.components_header.w == l.title.w,
        l.components_header.y == l.subtitle.y + l.subtitle.h + (14 * dpi + 48) / 96,
        l.components_header.h == (30 * dpi + 48) / 96,
        l.components@.len() == components,
        l.components@[0].y == l.components_header.y + l.components_header.h,
        0 <= i < components ==> l.components@[i].x == l.title.x && l.components@[i].w == l.title.w
            && l.components@[i].h == (52 * dpi + 48) / 96,
        0 < i < components ==> l.components@[i].y == l.components@[i - 1].y + l.components@[i
            - 1].h + (6 * dpi + 48) / 96,
        l.startup_header.x == l.title.x && l.startup_header.w == l.title.w,
        l.startup_header.y == l.components@[components - 1].y + l.components@[components - 1].h + (6
            * dpi + 48) / 96 + (14 * dpi + 48) / 96,
        l.startup_header.h == (30 * dpi + 48) / 96,
        l.startup@.len() == startup,
        l.startup@[0].y == l.startup_header.y + l.startup_header.h,
        0 <= i < startup ==> l.startup@[i].x == l.title.x && l.startup@[i].w == l.title.w
            && l.startup@[i].h == (52 * dpi + 48) / 96,
        0 < i < startup ==> l.startup@[i].y == l.startup@[i - 1].y + l.startup@[i - 1].h + (6 * dpi
            + 48) / 96,
        l.content_height == l.startup@[startup - 1].y + l.startup@[startup - 1].h + (6 * dpi + 48)
            / 96 + (18 * dpi + 48) / 96,
{
    lemma_view_length(18, dpi);
    lemma_view_length(34, dpi);
    lemma_view_length(22, dpi);
    lemma_view_length(14, dpi);
    lemma_view_length(30, dpi);
    lemma_view_length(52, dpi);
    lemma_view_length(6, dpi);
    let step = pitch(dpi);
    let c = components_top(dpi);
    let s = startup_top(dpi, components);
    assert(step == (52 * dpi + 48) / 96 + (6 * dpi + 48) / 96);
    assert(components * step == (components - 1) * step + step) by (nonlinear_arith);
    assert(startup * step == (startup - 1) * step + step) by (nonlinear_arith);
    assert(l.components@[components - 1].is_at(
        l.title.x as int,
        c + (components - 1) * step,
        l.title.w as int,
        (52 * dpi + 48) / 96,
    ));
    assert(l.startup@[startup - 1].is_at(
        l.title.x as int,
        s + (startup - 1) * step,
        l.title.w as int,
        (52 * dpi + 48) / 96,
    ));
    assert(0 * step == 0) by (nonlinear_arith);
    assert(l.components@[0].y == c + 0 * step);
    assert(l.startup@[0].y == s + 0 * step);
    if 0 < i < components {
        assert(i * step == (i - 1) * step + step) by (nonlinear_arith);
        assert(l.components@[i].y == c + i * step);
        assert(l.components@[i - 1].y == c + (i - 1) * step);
    }
    if 0 < i < startup {
        assert(i * step == (i - 1) * step + step) by (nonlinear_arith);
        assert(l.startup@[i].y == s + i * step);
        assert(l.startup@[i - 1].y == s + (i - 1) * step);
    }
}

/// The footer is 66 high, at the bottom of the window and as wide; both buttons
/// are 132 by 38 and centred in it, the right one a margin from the window's
/// edge, the left one a gap of 10 before it, and the status line takes what is
/// left, up to a margin before the left button.
pub proof fn law_the_footer_holds_both_buttons(
    l: Layout,
    client_w: int,
    client_h: int,
    dpi: u32,
    components: int,
    startup: int,
)
    requires
        l.is_layout_of(client_w, client_h, dpi, components, startup),
        96 <= dpi <= 9_600,
        client_h >= (66 * dpi + 48) / 96,
        client_w >= 2 * ((132 * dpi + 48) / 96) + (10 * dpi + 48) / 96 + 3 * ((18 * dpi + 48) / 96)
            + 1,
    ensures
        l.viewport_h == l.footer.y,
        l.footer.x == 0 && l.footer.w == client_w,
        l.footer.h == (66 * dpi + 48) / 96,
        l.footer.y + l.footer.h == client_h,
        l.restyle_btn.w == (132 * dpi + 48) / 96 && l.restyle_btn.h == (38 * dpi + 48) / 96,
        l.restore_btn.w == l.restyle_btn.w && l.restore_btn.h == l.restyle_btn.h,
        l.restore_btn.y == l.restyle_btn.y,
        ({
            let above = l.restyle_btn.y - l.footer.y;
            let below = l.footer.y + l.footer.h - l.restyle_btn.y - l.restyle_btn.h;
            0 <= above && above <= below <= above + 1
        }),
        l.restyle_btn.x + l.restyle_btn.w + (18 * dpi + 48) / 96 == client_w,
        l.restore_btn.x + l.restore_btn.w + (10 * dpi + 48) / 96 == l.restyle_btn.x,
        l.status.x == (18 * dpi + 48) / 96 && l.status.y == l.footer.y && l.status.h == l.footer.h,
        l.status.x + l.status.w + (18 * dpi + 48) / 96 == l.restore_btn.x,
{
    lemma_view_length(18, dpi);
    lemma_view_length(66, dpi);
    lemma_view_length(132, dpi);
    lemma_view_length(38, dpi);
    lemma_view_length(10, dpi);
}

/// Scrolling goes from the top of the content to where its end is at the bottom
/// of the viewport, and a place in between is kept.
pub proof fn law_scrolling_stays_within_the_content(l: Layout, scroll: int)
    ensures
        scroll <= 0 ==> l.scroll_within(scroll) == 0,
        l.content_height <= l.viewport_h ==> l.scroll_within(scroll) == 0,
        l.content_height > l.viewport_h && 0 <= scroll <= l.content_height - l.viewport_h
            ==> l.scroll_within(scroll) == scroll,
        l.content_height > l.viewport_h && scroll > l.content_height - l.viewport_h
            ==> l.scroll_within(scroll) == l.content_height - l.viewport_h,
        l.content_height > l.viewport_h ==> l.scroll_limit() == l.content_height - l.viewport_h,
{
}

/// A click in the footer is one on a button, where the point is in it; one above
/// is on the row that is shown there, which the scroll offset moves up.
pub proof fn law_clicks_go_to_what_is_shown(l: Layout, x: int, y: int, scroll: int, dx: int, dy: int)
    ensures
        y >= l.footer.y && x == l.restyle_btn.x + dx && y == l.restyle_btn.y + dy && 0 <= dx
            < l.restyle_btn.w && 0 <= dy < l.restyle_btn.h ==> l.hit_at(x, y, scroll) == Some(
            Hit::RestyleNow,
        ),
        y >= l.footer.y && x == l.restore_btn.x + dx && y == l.restore_btn.y + dy && 0 <= dx
            < l.restore_btn.w && 0 <= dy < l.restore_btn.h && !(l.restyle_btn.x <= x
            < l.restyle_btn.x + l.restyle_btn.w) ==> l.hit_at(x, y, scroll) == Some(Hit::Restore),
        l.hit_at(x, y, scroll) == Some(Hit::RestyleNow) ==> y >= l.footer.y && l.restyle_btn.x <= x
            < l.restyle_btn.x + l.restyle_btn.w && l.restyle_btn.y <= y < l.restyle_btn.y
            + l.restyle_btn.h,
        l.hit_at(x, y, scroll) == Some(Hit::Restore) ==> y >= l.footer.y && l.restore_btn.x <= x
            < l.restore_btn.x + l.restore_btn.w && l.restore_btn.y <= y < l.restore_btn.y
            + l.restore_btn.h,
        l.components@.len() <= usize::MAX ==> match l.hit_at(x, y, scroll) {
            Some(Hit::Component(i)) => y < l.footer.y && i < l.components@.len()
                && l.components@[i as int].x <= x < l.components@[i as int].x
                + l.components@[i as int].w && l.components@[i as int].y <= y + scroll
                < l.components@[i as int].y + l.components@[i as int].h,
            _ => true,
        },
        l.startup@.len() <= usize::MAX ==> match l.hit_at(x, y, scroll) {
            Some(Hit::Startup(i)) => y < l.footer.y && i < l.startup@.len()
                && l.startup@[i as int].x <= x < l.startup@[i as int].x + l.startup@[i as int].w
                && l.startup@[i as int].y <= y + scroll < l.startup@[i as int].y
                + l.startup@[i as int].h,
            _ => true,
        },
{
    if l.components@.len() <= usize::MAX {
        lemma_first_row(l.components@, x, y + scroll);
    }
    if l.startup@.len() <= usize::MAX {
        lemma_first_row(l.startup@, x, y + scroll);
    }
}

/// A checkbox is a square of 22, 14 from the left of its row, and as far from the
/// top of the row as from its bottom.
pub proof fn law_a_checkbox_is_centred_in_its_row(r: ViewRect, row: ViewRect, dpi: u32)
    requires
        is_checkbox_of(r, row, dpi),
        96 <= dpi <= 9_600,
        row.h >= (22 * dpi + 48) / 96,
    ensures
        r.w == (22 * dpi + 48) / 96 && r.h == r.w,
        r.x == row.x + (14 * dpi + 48) / 96,
        ({
            let above = r.y - row.y;
            let below = row.y + row.h - r.y - r.h;
            0 <= above && above <= below <= above + 1
        }),
{
    lemma_view_length(22, dpi);
    lemma_view_length(14, dpi);
}

/// The lengths of the window, at 96 DPI.
pub proof fn law_the_window_has_its_lengths()
    ensures
        MARGIN == 18,
        TITLE_H == 34,
        SUBTITLE_H == 22,
        SECTION_H == 30,
        ROW_H == 52,
        ROW_GAP == 6,
        SECTION_GAP == 14,
        FOOTER_H == 66,
        BTN_W == 132,
        BTN_H == 38,
        BTN_GAP == 10,
        CHECKBOX == 22,
        CHECKBOX_PAD == 14,
{
}

/// In a window too small for it, what stands at the right or the bottom stops at
/// the left or the top edge, and every extent stops at one pixel.
pub proof fn law_small_windows_are_laid_out_at_the_edge(
    l: Layout,
    client_w: int,
    client_h: int,
    dpi: u32,
    components: int,
    startup: int,
)
    requires
        l.is_layout_of(client_w, client_h, dpi, components, startup),
        96 <= dpi <= 9_600,
    ensures
        client_w <= (18 * dpi + 48) / 96 + (132 * dpi + 48) / 96 ==> l.restyle_btn.x == 0,
        client_w <= (18 * dpi + 48) / 96 + 2 * ((132 * dpi + 48) / 96) + (10 * dpi + 48) / 96
            ==> l.restore_btn.x == 0,
        client_h <= (66 * dpi + 48) / 96 ==> l.footer.y == 0 && l.viewport_h == 0,
        client_w <= 2 * ((18 * dpi + 48) / 96) ==> l.title.w == 1,
        client_w <= 0 ==> l.footer.w == 1,
        l.restore_btn.x <= 2 * ((18 * dpi + 48) / 96) ==> l.status.w == 1,
{
    lemma_view_length(18, dpi);
    lemma_view_length(66, dpi);
    lemma_view_length(132, dpi);
    lemma_view_length(10, dpi);
}

} // verus!
