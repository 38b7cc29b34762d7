//! What one paint of a bar draws, in order, and which window icons have to be
//! on the graphics device for it.
//!
//! A paint is a list of drawing operations in bar-local physical pixels;
//! executing them is left to the graphics layer.
use vstd::prelude::*;

use std::collections::HashMap;

use crate::config::{Color, Taskbar};
use crate::geometry::{self, Edges};
use crate::paths;
use crate::taskbar::bar::{BarLayout, Hit};
use crate::taskbar::layout::{self, BarRect};
use crate::taskbar::tasks::{self, Icon, TaskWindow};
use crate::taskbar::tray_host::{contains_handle, TrayItem};
use crate::text;

verus! {

/// Everything one paint needs.
pub struct Frame<'a> {
    pub bar: &'a Taskbar,
    pub clock: &'a str,
    /// Second clock line; empty where the date is off.
    pub date: &'a str,
    pub dpi: u32,
    pub tasks: &'a Vec<TaskWindow>,
    /// Where everything is, bar-local. The `i`-th rectangle belongs to the `i`-th
    /// pinned app, window or tray icon; the last ones may have none.
    pub layout: &'a BarLayout,
    /// Handle of the foreground window, 0 for none.
    pub active: isize,
    /// Decoded icons per window; `Some(None)` remembers "asked, has none".
    pub icons: &'a HashMap<isize, Option<Icon>>,
    /// Pinned apps with their decoded icons.
    pub pinned: &'a Vec<(String, Option<Icon>)>,
    /// The tray icons a viewer can see.
    pub tray: Vec<TrayItem<'a>>,
    /// What is under the mouse, if anything.
    pub hovered: Option<Hit>,
}

/// Button fill strength in percent: resting, hovered, focused, focused and
/// hovered.
pub open spec fn chip_strength(active: bool, hovered: bool) -> u32 {
    match (active, hovered) {
        (false, false) => 8,
        (false, true) => 14,
        (true, false) => 22,
        (true, true) => 26,
    }
}

/// Button fill strength in percent.
pub fn chip_alpha(active: bool, hovered: bool) -> (r: u32)
    ensures
        r == chip_strength(active, hovered),
{
    match (active, hovered) {
        (false, false) => 8,
        (false, true) => 14,
        (true, false) => 22,
        (true, true) => 26,
    }
}

/// A hovered button is brighter than the same one at rest, and the foreground
/// window's is brighter than any other.
pub proof fn law_brighter_chips_stand_out(active: bool, hovered: bool)
    ensures
        chip_strength(active, false) < chip_strength(active, true) <= 100,
        chip_strength(false, hovered) < chip_strength(true, false),
{
}

/// One drawing operation.
#[derive(Debug, PartialEq, Eq)]
pub enum BarOp {
    Clear,
    /// The ground of the whole bar.
    Ground { color: Color, alpha: u8, radius: i32 },
    /// The ground of a button, in white of this strength in percent.
    Chip { at: Edges, radius: i32, strength: u32 },
    /// The four panes of the Start button.
    StartGlyph { at: Edges, ink: Color },
    /// The icon of the pinned app of that index, `size` pixels a side, centred.
    PinnedIcon { index: usize, at: Edges, size: i64 },
    /// The icon of the tray item of that index, `size` pixels a side, centred.
    TrayIcon { index: usize, at: Edges, size: i64 },
    /// A mark, centred in its place.
    Label { text: String, at: Edges, ink: Color },
    /// The icon of a window: `size` pixels a side, from `left`, centred
    /// vertically in its button.
    WindowIcon { hwnd: isize, button: Edges, left: i64, size: i64 },
    /// A window's title, cut to its place.
    Title { text: String, at: Edges, ink: Color },
    /// The clock, right-aligned in its place.
    Clock { text: String, at: Edges, ink: Color },
}

/// A drawing operation as a value.
#[verifier::ext_equal]
pub ghost enum BarOpModel {
    Clear,
    Ground { color: Color, alpha: u8, radius: i32 },
    Chip { at: Edges, radius: i32, strength: u32 },
    StartGlyph { at: Edges, ink: Color },
    PinnedIcon { index: usize, at: Edges, size: i64 },
    TrayIcon { index: usize, at: Edges, size: i64 },
    Label { text: Seq<char>, at: Edges, ink: Color },
    WindowIcon { hwnd: isize, button: Edges, left: i64, size: i64 },
    Title { text: Seq<char>, at: Edges, ink: Color },
    Clock { text: Seq<char>, at: Edges, ink: Color },
}

impl View for BarOp {
    type V = BarOpModel;

    open spec fn view(&self) -> BarOpModel {
        match *self {
            BarOp::Clear => BarOpModel::Clear,
            BarOp::Ground { color, alpha, radius } => BarOpModel::Ground { color, alpha, radius },
            BarOp::Chip { at, radius, strength } => BarOpModel::Chip { at, radius, strength },
            BarOp::StartGlyph { at, ink } => BarOpModel::StartGlyph { at, ink },
            BarOp::PinnedIcon { index, at, size } => BarOpModel::PinnedIcon { index, at, size },
            BarOp::TrayIcon { index, at, size } => BarOpModel::TrayIcon { index, at, size },
            BarOp::Label { text, at, ink } => BarOpModel::Label { text: text@, at, ink },
            BarOp::WindowIcon { hwnd, button, left, size } => BarOpModel::WindowIcon {
                hwnd,
                button,
                left,
                size,
            },
            BarOp::Title { text, at, ink } => BarOpModel::Title { text: text@, at, ink },
            BarOp::Clock { text, at, ink } => BarOpModel::Clock { text: text@, at, ink },
        }
    }
}

/// Drawing operations as values.
pub open spec fn ops_of(ops: Seq<BarOp>) -> Seq<BarOpModel> {
    ops.map_values(|op: BarOp| op@)
}

/// Lengths at 96 DPI.
pub const CHIP_RADIUS: u32 = 6;
pub const CHIP_PAD: u32 = 10;
pub const ICON_SIZE: u32 = 16;
pub const ICON_GAP: u32 = 6;
pub const CLOCK_PAD: u32 = 16;

/// What marks the chip behind which the windows are that got no button.
pub const OVERFLOW_MARK: &'static str = "»";

/// The region a rectangle covers.
pub open spec fn rect_edges(r: BarRect) -> Edges {
    geometry::edges(r.x as int, r.y as int, r.x + r.w, r.y + r.h)
}

/// A window button: its ground, its icon where the device has it, and its title
/// in what is left.
pub open spec fn chip_ops(
    task: TaskWindow,
    rect: BarRect,
    active: bool,
    hovered: bool,
    has_icon: bool,
    ink: Color,
    dpi: u32,
) -> Seq<BarOpModel> {
    let pad = layout::at_dpi(CHIP_PAD as int, dpi);
    let size = layout::at_dpi(ICON_SIZE as int, dpi);
    let gap = layout::at_dpi(ICON_GAP as int, dpi);
    let left = rect.x + pad;
    seq![
        BarOpModel::Chip {
            at: rect_edges(rect),
            radius: geometry::scaled(CHIP_RADIUS as int, dpi as int),
            strength: chip_strength(active, hovered),
        },
    ] + (if has_icon {
        seq![
            BarOpModel::WindowIcon {
                hwnd: task.hwnd,
                button: rect_edges(rect),
                left: left as i64,
                size: size as i64,
            },
        ]
    } else {
        Seq::empty()
    }) + seq![
        BarOpModel::Title {
            text: task.title@,
            at: geometry::edges(
                if has_icon {
                    left + size + gap
                } else {
                    left
                },
                rect.y as int,
                rect.x + rect.w - pad,
                rect.y + rect.h,
            ),
            ink,
        },
    ]
}

/// The ground of a button that belongs to no window.
pub open spec fn ground_op(rect: BarRect, hovered: bool, dpi: u32) -> BarOpModel {
    BarOpModel::Chip {
        at: rect_edges(rect),
        radius: geometry::scaled(CHIP_RADIUS as int, dpi as int),
        strength: chip_strength(false, hovered),
    }
}

/// The Start button.
pub open spec fn start_ops(f: Frame) -> Seq<BarOpModel> {
    seq![
        ground_op(f.layout.start, f.hovered == Some(Hit::Start), f.dpi),
        BarOpModel::StartGlyph { at: rect_edges(f.layout.start), ink: f.bar.text_color },
    ]
}

/// The letter a pinned app without an icon shows: the first of its file name.
pub open spec fn initial(path: Seq<char>) -> Seq<char> {
    let name = paths::file_name_of(path);
    name.take(geometry::min_of(1, name.len() as int))
}

/// A pinned app: its ground, and its icon or its letter.
pub open spec fn pinned_chip_ops(f: Frame, i: int) -> Seq<BarOpModel> {
    let at = rect_edges(f.layout.pinned@[i]);
    seq![
        ground_op(f.layout.pinned@[i], f.hovered == Some(Hit::Pinned(i as usize)), f.dpi),
        if f.pinned@[i].1 is Some {
            BarOpModel::PinnedIcon {
                index: i as usize,
                at,
                size: layout::at_dpi(ICON_SIZE as int, f.dpi) as i64,
            }
        } else {
            BarOpModel::Label { text: initial(f.pinned@[i].0@), at, ink: f.bar.text_color }
        },
    ]
}

/// The first `n` pinned apps.
pub open spec fn pinned_ops(f: Frame, n: int) -> Seq<BarOpModel>
    decreases n,
{
    if n <= 0 {
        Seq::empty()
    } else {
        pinned_ops(f, n - 1) + pinned_chip_ops(f, n - 1)
    }
}

/// The chip behind which the windows are that got no button.
pub open spec fn overflow_ops(f: Frame) -> Seq<BarOpModel> {
    match f.layout.overflow {
        Some(r) => seq![
            ground_op(r, f.hovered == Some(Hit::Overflow), f.dpi),
            BarOpModel::Label { text: OVERFLOW_MARK@, at: rect_edges(r), ink: f.bar.text_color },
        ],
        None => Seq::empty(),
    }
}

/// A tray icon: its ground while the mouse is over it, and its image where it has
/// one.
pub open spec fn tray_cell_ops(f: Frame, i: int) -> Seq<BarOpModel> {
    let cell = f.layout.tray@[i];
    (if f.hovered == Some(Hit::Tray(i as usize)) {
        seq![ground_op(cell, true, f.dpi)]
    } else {
        Seq::empty()
    }) + (if f.tray@[i].icon is Some {
        seq![
            BarOpModel::TrayIcon {
                index: i as usize,
                at: rect_edges(cell),
                size: layout::at_dpi(ICON_SIZE as int, f.dpi) as i64,
            },
        ]
    } else {
        Seq::empty()
    })
}

/// The first `n` tray icons.
pub open spec fn tray_ops(f: Frame, n: int) -> Seq<BarOpModel>
    decreases n,
{
    if n <= 0 {
        Seq::empty()
    } else {
        tray_ops(f, n - 1) + tray_cell_ops(f, n - 1)
    }
}

/// The first `n` window buttons.
pub open spec fn chips_ops(f: Frame, uploaded: Seq<isize>, n: int) -> Seq<BarOpModel>
    decreases n,
{
    if n <= 0 {
        Seq::empty()
    } else {
        let task = f.tasks@[n - 1];
        chips_ops(f, uploaded, n - 1) + chip_ops(
            task,
            f.layout.tasks@[n - 1],
            task.hwnd == f.active,
            f.hovered == Some(Hit::Task((n - 1) as usize)),
            uploaded.contains(task.hwnd),
            f.bar.text_color,
            f.dpi,
        )
    }
}

/// The text of the clock: the time, and the date on a line of its own where it
/// is on.
pub open spec fn clock_lines(clock: Seq<char>, date: Seq<char>) -> Seq<char> {
    if date.len() == 0 {
        clock
    } else {
        clock + "\n"@ + date
    }
}

/// Everything a paint of a bar of `w` by `h` pixels draws, where the device has
/// the icons of the `uploaded` windows.
pub open spec fn frame_ops(f: Frame, uploaded: Seq<isize>, w: i32, h: i32) -> Seq<BarOpModel> {
    let pad = layout::at_dpi(CLOCK_PAD as int, f.dpi);
    seq![
        BarOpModel::Clear,
        BarOpModel::Ground {
            color: f.bar.color,
            alpha: f.bar.alpha,
            radius: geometry::scaled(f.bar.corner_radius as int, f.dpi as int),
        },
    ] + start_ops(f) + pinned_ops(
        f,
        geometry::min_of(f.pinned@.len() as int, f.layout.pinned@.len() as int),
    ) + chips_ops(
        f,
        uploaded,
        geometry::min_of(f.tasks@.len() as int, f.layout.tasks@.len() as int),
    ) + overflow_ops(f) + tray_ops(
        f,
        geometry::min_of(f.tray@.len() as int, f.layout.tray@.len() as int),
    ) + seq![
        BarOpModel::Clock {
            text: clock_lines(f.clock@, f.date@),
            at: geometry::edges(pad, 0, w - pad, h as int),
            ink: f.bar.text_color,
        },
    ]
}

/// The region a rectangle covers.
fn region(r: &BarRect) -> (e: Edges)
    ensures
        e == rect_edges(*r),
{
    Edges {
        left: r.x as i64,
        top: r.y as i64,
        right: r.x as i64 + r.w as i64,
        bottom: r.y as i64 + r.h as i64,
    }
}

/// Append one operation.
fn push_op(ops: &mut Vec<BarOp>, op: BarOp)
    ensures
        ops_of(final(ops)@) == ops_of(old(ops)@) + seq![op@],
{
    ops.push(op);
    proof {
        assert(ops_of(ops@) =~= ops_of(old(ops)@) + seq![op@]);
    }
}

/// Append a window button.
fn draw_chip(
    ops: &mut Vec<BarOp>,
    task: &TaskWindow,
    rect: &BarRect,
    active: bool,
    hovered: bool,
    has_icon: bool,
    ink: Color,
    dpi: u32,
)
    ensures
        ops_of(final(ops)@) == ops_of(old(ops)@) + chip_ops(
            *task,
            *rect,
            active,
            hovered,
            has_icon,
            ink,
            dpi,
        ),
{
    let ghost before = ops_of(ops@);
    let pad: i64 = layout::scale(CHIP_PAD, dpi) as i64;
    let size: i64 = layout::scale(ICON_SIZE, dpi) as i64;
    let gap: i64 = layout::scale(ICON_GAP, dpi) as i64;
    push_op(
        ops,
        BarOp::Chip {
            at: region(rect),
            radius: layout::scale(CHIP_RADIUS, dpi),
            strength: chip_alpha(active, hovered),
        },
    );
    let left: i64 = rect.x as i64 + pad;
    let mut text_left: i64 = left;
    if has_icon {
        push_op(ops, BarOp::WindowIcon { hwnd: task.hwnd, button: region(rect), left, size });
        text_left = left + size + gap;
    }
    let button = region(rect);
    push_op(
        ops,
        BarOp::Title {
            text: task.title.clone(),
            at: Edges { left: text_left, right: button.right - pad, ..button },
            ink,
        },
    );
    proof {
        assert(ops_of(ops@) =~= before + chip_ops(
            *task,
            *rect,
            active,
            hovered,
            has_icon,
            ink,
            dpi,
        ));
    }
}

/// The ground of a button that belongs to no window.
fn ground(rect: &BarRect, hovered: bool, dpi: u32) -> (r: BarOp)
    ensures
        r@ == ground_op(*rect, hovered, dpi),
{
    BarOp::Chip {
        at: region(rect),
        radius: layout::scale(CHIP_RADIUS, dpi),
        strength: chip_alpha(false, hovered),
    }
}

/// Append the Start button.
fn draw_start(ops: &mut Vec<BarOp>, f: &Frame)
    ensures
        ops_of(final(ops)@) == ops_of(old(ops)@) + start_ops(*f),
{
    let ghost before = ops_of(ops@);
    let hovered: bool = f.hovered == Some(Hit::Start);
    push_op(ops, ground(&f.layout.start, hovered, f.dpi));
    push_op(ops, BarOp::StartGlyph { at: region(&f.layout.start), ink: f.bar.text_color });
    proof {
        assert(ops_of(ops@) =~= before + start_ops(*f));
    }
}

/// The letter a pinned app without an icon shows.
fn letter_of(path: &str) -> (r: String)
    ensures
        r@ == initial(path@),
{
    let name = paths::file_name(path);
    let chars = text::chars_of(name.as_str());
    let end: usize = if chars.len() == 0 {
        0
    } else {
        1
    };
    let r = text::string_of(&chars, 0, end);
    proof {
        assert(r@ =~= initial(path@));
    }
    r
}

/// Append the pinned apps.
fn draw_pinned(ops: &mut Vec<BarOp>, f: &Frame)
    ensures
        ops_of(final(ops)@) == ops_of(old(ops)@) + pinned_ops(
            *f,
            geometry::min_of(f.pinned@.len() as int, f.layout.pinned@.len() as int),
        ),
{
    let ghost before = ops_of(ops@);
    let mut i: usize = 0;
    proof {
        assert(before =~= before + pinned_ops(*f, 0));
    }
    while i < f.pinned.len() && i < f.layout.pinned.len()
        invariant
            i <= f.pinned@.len(),
            i <= f.layout.pinned@.len(),
            ops_of(ops@) == before + pinned_ops(*f, i as int),
        decreases f.pinned@.len() - i,
    {
        let rect = &f.layout.pinned[i];
        let hovered: bool = f.hovered == Some(Hit::Pinned(i));
        push_op(ops, ground(rect, hovered, f.dpi));
        let op = if f.pinned[i].1.is_some() {
            BarOp::PinnedIcon {
                index: i,
                at: region(rect),
                size: layout::scale(ICON_SIZE, f.dpi) as i64,
            }
        } else {
            BarOp::Label {
                text: letter_of(f.pinned[i].0.as_str()),
                at: region(rect),
                ink: f.bar.text_color,
            }
        };
        push_op(ops, op);
        i = i + 1;
        proof {
            assert(ops_of(ops@) =~= before + pinned_ops(*f, i as int));
        }
    }
}

/// Append the window buttons.
fn draw_tasks(ops: &mut Vec<BarOp>, f: &Frame, uploaded: &Vec<isize>)
    ensures
        ops_of(final(ops)@) == ops_of(old(ops)@) + chips_ops(
            *f,
            uploaded@,
            geometry::min_of(f.tasks@.len() as int, f.layout.tasks@.len() as int),
        ),
{
    let ghost before = ops_of(ops@);
    let mut i: usize = 0;
    proof {
        assert(before =~= before + chips_ops(*f, uploaded@, 0));
    }
    while i < f.tasks.len() && i < f.layout.tasks.len()
        invariant
            i <= f.tasks@.len(),
            i <= f.layout.tasks@.len(),
            ops_of(ops@) == before + chips_ops(*f, uploaded@, i as int),
        decreases f.tasks@.len() - i,
    {
        let hwnd: isize = f.tasks[i].hwnd;
        let hovered: bool = f.hovered == Some(Hit::Task(i));
        let has_icon: bool = contains_handle(uploaded, hwnd);
        draw_chip(
            ops,
            &f.tasks[i],
            &f.layout.tasks[i],
            hwnd == f.active,
            hovered,
            has_icon,
            f.bar.text_color,
            f.dpi,
        );
        i = i + 1;
        proof {
            assert(ops_of(ops@) =~= before + chips_ops(*f, uploaded@, i as int));
        }
    }
}

/// Append the overflow chip.
fn draw_overflow(ops: &mut Vec<BarOp>, f: &Frame)
    ensures
        ops_of(final(ops)@) == ops_of(old(ops)@) + overflow_ops(*f),
{
    let ghost before = ops_of(ops@);
    if let Some(r) = &f.layout.overflow {
        let hovered: bool = f.hovered == Some(Hit::Overflow);
        push_op(ops, ground(r, hovered, f.dpi));
        push_op(
            ops,
            BarOp::Label {
                text: OVERFLOW_MARK.to_owned(),
                at: region(r),
                ink: f.bar.text_color,
            },
        );
    }
    proof {
        assert(ops_of(ops@) =~= before + overflow_ops(*f));
    }
}

/// Append the tray icons.
fn draw_tray(ops: &mut Vec<BarOp>, f: &Frame)
    ensures
        ops_of(final(ops)@) == ops_of(old(ops)@) + tray_ops(
            *f,
            geometry::min_of(f.tray@.len() as int, f.layout.tray@.len() as int),
        ),
{
    let ghost before = ops_of(ops@);
    let mut i: usize = 0;
    proof {
        assert(before =~= before + tray_ops(*f, 0));
    }
    while i < f.tray.len() && i < f.layout.tray.len()
        invariant
            i <= f.tray@.len(),
            i <= f.layout.tray@.len(),
            ops_of(ops@) == before + tray_ops(*f, i as int),
        decreases f.tray@.len() - i,
    {
        let cell = &f.layout.tray[i];
        if f.hovered == Some(Hit::Tray(i)) {
            push_op(ops, ground(cell, true, f.dpi));
        }
        if f.tray[i].icon.is_some() {
            push_op(
                ops,
                BarOp::TrayIcon {
                    index: i,
                    at: region(cell),
                    size: layout::scale(ICON_SIZE, f.dpi) as i64,
                },
            );
        }
        i = i + 1;
        proof {
            assert(ops_of(ops@) =~= before + tray_ops(*f, i as int));
        }
    }
}

/// Everything a paint of a bar of `w` by `h` pixels draws, in order: the ground,
/// the Start button, the pinned apps, the window buttons, the overflow chip, the
/// tray and the right-aligned clock. `uploaded` are the windows whose icons the
/// device has; a button without one is text only.
pub fn draw(f: &Frame, uploaded: &Vec<isize>, w: i32, h: i32) -> (r: Vec<BarOp>)
    ensures
        ops_of(r@) == frame_ops(*f, uploaded@, w, h),
{
    let mut ops: Vec<BarOp> = Vec::new();
    proof {
        assert(ops_of(ops@) =~= Seq::<BarOpModel>::empty());
    }
    push_op(&mut ops, BarOp::Clear);
    push_op(
        &mut ops,
        BarOp::Ground {
            color: f.bar.color,
            alpha: f.bar.alpha,
            radius: layout::scale(f.bar.corner_radius, f.dpi),
        },
    );
    draw_start(&mut ops, f);
    draw_pinned(&mut ops, f);
    draw_tasks(&mut ops, f, uploaded);
    draw_overflow(&mut ops, f);
    draw_tray(&mut ops, f);
    let lines = if f.date.is_empty() {
        f.clock.to_owned()
    } else {
        let head = text::joined(f.clock, "\n");
        text::joined(head.as_str(), f.date)
    };
    let pad: i64 = layout::scale(CLOCK_PAD, f.dpi) as i64;
    push_op(
        &mut ops,
        BarOp::Clock {
            text: lines,
            at: Edges { left: pad, top: 0, right: w as i64 - pad, bottom: h as i64 },
            ink: f.bar.text_color,
        },
    );
    proof {
        assert(ops_of(ops@) =~= frame_ops(*f, uploaded@, w, h));
    }
    ops
}

/// The handles of a list that no listed window has, in order.
pub open spec fn stale(uploaded: Seq<isize>, windows: Seq<TaskWindow>) -> Seq<isize>
    decreases uploaded.len(),
{
    if uploaded.len() == 0 {
        Seq::empty()
    } else if tasks::listed(windows, uploaded.last()) {
        stale(uploaded.drop_last(), windows)
    } else {
        stale(uploaded.drop_last(), windows).push(uploaded.last())
    }
}

/// Whether there is a decoded icon for a window.
pub open spec fn has_decoded(icons: Map<isize, Option<Icon>>, hwnd: isize) -> bool {
    icons.dom().contains(hwnd) && icons[hwnd] is Some
}

/// The windows that have an icon decoded but not on the device, in order.
pub open spec fn not_uploaded(
    uploaded: Seq<isize>,
    windows: Seq<TaskWindow>,
    icons: Map<isize, Option<Icon>>,
) -> Seq<isize>
    decreases windows.len(),
{
    if windows.len() == 0 {
        Seq::empty()
    } else {
        let rest = not_uploaded(uploaded, windows.drop_last(), icons);
        let hwnd = windows.last().hwnd;
        if !uploaded.contains(hwnd) && has_decoded(icons, hwnd) {
            rest.push(hwnd)
        } else {
            rest
        }
    }
}

/// What is done to the icons on the device before a paint.
#[derive(Debug, PartialEq, Eq)]
pub struct CacheSync {
    /// Icons of windows that are gone.
    pub dropped: Vec<isize>,
    /// Icons to upload. One that fails leaves a button with text only.
    pub uploads: Vec<isize>,
}

/// What is done to the icons on the device before a paint: those of windows that
/// are gone are dropped, and those of windows that just appeared are uploaded.
pub fn sync_icon_cache(
    uploaded: &Vec<isize>,
    windows: &Vec<TaskWindow>,
    icons: &HashMap<isize, Option<Icon>>,
) -> (r: CacheSync)
    ensures
        r.dropped@ == stale(uploaded@, windows@),
        r.uploads@ == not_uploaded(uploaded@, windows@, icons@),
{
    broadcast use vstd::std_specs::hash::group_hash_axioms;

    let mut dropped: Vec<isize> = Vec::new();
    let mut i: usize = 0;
    while i < uploaded.len()
        invariant
            i <= uploaded@.len(),
            dropped@ == stale(uploaded@.take(i as int), windows@),
        decreases uploaded@.len() - i,
    {
        proof {
            assert(uploaded@.take(i + 1).drop_last() =~= uploaded@.take(i as int));
            assert(uploaded@.take(i + 1).last() == uploaded@[i as int]);
        }
        if !tasks::is_listed(windows, uploaded[i]) {
            dropped.push(uploaded[i]);
        }
        i = i + 1;
    }
    let mut uploads: Vec<isize> = Vec::new();
    let mut k: usize = 0;
    while k < windows.len()
        invariant
            k <= windows@.len(),
            uploads@ == not_uploaded(uploaded@, windows@.take(k as int), icons@),
        decreases windows@.len() - k,
    {
        proof {
            assert(windows@.take(k + 1).drop_last() =~= windows@.take(k as int));
            assert(windows@.take(k + 1).last() == windows@[k as int]);
        }
        let hwnd: isize = windows[k].hwnd;
        let decoded: bool = match icons.get(&hwnd) {
            Some(icon) => icon.is_some(),
            None => false,
        };
        if decoded && !contains_handle(uploaded, hwnd) {
            uploads.push(hwnd);
        }
        k = k + 1;
    }
    proof {
        assert(uploaded@.take(uploaded@.len() as int) =~= uploaded@);
        assert(windows@.take(windows@.len() as int) =~= windows@);
    }
    CacheSync { dropped, uploads }
}

/// A kind of graphics device.
#[derive(Debug, Clone, Copy, PartialEq, Eq, Structural)]
pub enum Driver {
    Hardware,
    /// Software rendering, for machines without a graphics processor.
    Warp,
}

/// The device to try after `last` failed: hardware first, then software, then
/// none.
pub fn next_driver(last: Option<Driver>) -> (r: Option<Driver>)
    ensures
        r == match last {
            None => Some(Driver::Hardware),
            Some(Driver::Hardware) => Some(Driver::Warp),
            Some(Driver::Warp) => None,
        },
{
    match last {
        None => Some(Driver::Hardware),
        Some(Driver::Hardware) => Some(Driver::Warp),
        Some(Driver::Warp) => None,
    }
}

/// The strengths of a button's ground.
pub proof fn law_chips_have_their_strength(active: bool, hovered: bool)
    ensures
        chip_strength(active, hovered) == if active {
            if hovered {
                26u32
            } else {
                22
            }
        } else {
            if hovered {
                14
            } else {
                8
            }
        },
{
}

/// A rectangle's region has its four edges.
pub proof fn law_regions_have_the_edges_of_their_rectangle(r: BarRect)
    ensures
        rect_edges(r).left == r.x,
        rect_edges(r).top == r.y,
        rect_edges(r).right == r.x + r.w,
        rect_edges(r).bottom == r.y + r.h,
{
}

/// A window's button: the ground over all of it, the icon one pad from its left
/// edge where the device has one, and the title behind that, up to one pad from its
/// right edge.
pub proof fn law_a_button_shows_icon_and_title(
    task: TaskWindow,
    rect: BarRect,
    active: bool,
    hovered: bool,
    has_icon: bool,
    ink: Color,
    dpi: u32,
)
    ensures
        ({
            let ops = chip_ops(task, rect, active, hovered, has_icon, ink, dpi);
            let pad = (10 * dpi + 48) / 96;
            let size = (16 * dpi + 48) / 96;
            let gap = (6 * dpi + 48) / 96;
            &&& ops.len() == if has_icon {
                3nat
            } else {
                2
            }
            &&& ops[0] matches BarOpModel::Chip { at, radius, strength } && at == rect_edges(rect)
                && radius == gap && strength == chip_strength(active, hovered)
            &&& has_icon ==> (ops[1] matches BarOpModel::WindowIcon {
                hwnd,
                button,
                left,
                size: side,
            } && hwnd == task.hwnd && button == rect_edges(rect) && left == rect.x + pad && side
                == size)
            &&& ops.last() matches BarOpModel::Title { text, at, ink: c } && text == task.title@
                && c == ink && at.left == rect.x + pad + (if has_icon {
                size + gap
            } else {
                0
            }) && at.top == rect.y && at.right == rect.x + rect.w - pad && at.bottom == rect.y
                + rect.h
        }),
{
    layout::lemma_small_lengths_scale(CHIP_PAD as int, dpi);
    layout::lemma_small_lengths_scale(ICON_SIZE as int, dpi);
    layout::lemma_small_lengths_scale(ICON_GAP as int, dpi);
    layout::lemma_small_lengths_scale(CHIP_RADIUS as int, dpi);
}

/// What a paint draws and in which order: the ground of the bar in its colour, the
/// Start button, the pinned apps, the windows, the overflow chip, the tray, and the
/// clock over the whole bar but for a pad on either side.
pub proof fn law_a_paint_goes_from_left_to_right(
    f: Frame,
    uploaded: Seq<isize>,
    w: i32,
    h: i32,
)
    requires
        f.bar.corner_radius <= 47,
    ensures
        ({
            let ops = frame_ops(f, uploaded, w, h);
            let pad = (16 * f.dpi + 48) / 96;
            let p = if f.pinned@.len() < f.layout.pinned@.len() {
                f.pinned@.len() as int
            } else {
                f.layout.pinned@.len() as int
            };
            let n = if f.tasks@.len() < f.layout.tasks@.len() {
                f.tasks@.len() as int
            } else {
                f.layout.tasks@.len() as int
            };
            let t = if f.tray@.len() < f.layout.tray@.len() {
                f.tray@.len() as int
            } else {
                f.layout.tray@.len() as int
            };
            let body = start_ops(f) + pinned_ops(f, p) + chips_ops(f, uploaded, n) + overflow_ops(f)
                + tray_ops(f, t);
            &&& ops.len() == 3 + body.len()
            &&& ops[0] is Clear
            &&& ops[1] matches BarOpModel::Ground { color, alpha, radius } && color == f.bar.color
                && alpha == f.bar.alpha && radius == (f.bar.corner_radius * f.dpi + 48) / 96
            &&& ops.subrange(2, 2 + body.len() as int) == body
            &&& ops.last() matches BarOpModel::Clock { text, at, ink } && text == clock_lines(
                f.clock@,
                f.date@,
            ) && ink == f.bar.text_color && at.left == pad && at.top == 0 && at.right == w - pad
                && at.bottom == h
        }),
        f.date@.len() == 0 ==> clock_lines(f.clock@, f.date@) == f.clock@,
        f.date@.len() > 0 ==> clock_lines(f.clock@, f.date@) == f.clock@ + seq!['\n'] + f.date@,
{
    layout::lemma_small_lengths_scale(CLOCK_PAD as int, f.dpi);
    layout::lemma_small_lengths_scale(f.bar.corner_radius as int, f.dpi);
    reveal_strlit("\n");
    assert("\n"@ =~= seq!['\n']);
    let p = geometry::min_of(f.pinned@.len() as int, f.layout.pinned@.len() as int);
    let n = geometry::min_of(f.tasks@.len() as int, f.layout.tasks@.len() as int);
    let t = geometry::min_of(f.tray@.len() as int, f.layout.tray@.len() as int);
    let body = start_ops(f) + pinned_ops(f, p) + chips_ops(f, uploaded, n) + overflow_ops(f)
        + tray_ops(f, t);
    let ops = frame_ops(f, uploaded, w, h);
    assert(ops.subrange(2, 2 + body.len() as int) =~= body);
}

/// Windows, pinned apps and tray icons are drawn one by one, each in its own
/// rectangle; the foreground window's button is the active one, and what the mouse
/// is over is marked.
pub proof fn law_parts_are_drawn_in_their_rectangles(f: Frame, uploaded: Seq<isize>, n: int)
    requires
        n >= 0,
    ensures
        chips_ops(f, uploaded, 0).len() == 0,
        chips_ops(f, uploaded, n + 1) == chips_ops(f, uploaded, n) + chip_ops(
            f.tasks@[n],
            f.layout.tasks@[n],
            f.tasks@[n].hwnd == f.active,
            f.hovered == Some(Hit::Task(n as usize)),
            uploaded.contains(f.tasks@[n].hwnd),
            f.bar.text_color,
            f.dpi,
        ),
        pinned_ops(f, 0).len() == 0,
        ({
            let added = pinned_ops(f, n + 1).skip(pinned_ops(f, n).len() as int);
            let at = rect_edges(f.layout.pinned@[n]);
            &&& pinned_ops(f, n + 1).take(pinned_ops(f, n).len() as int) == pinned_ops(f, n)
            &&& added.len() == 2
            &&& added[0] matches BarOpModel::Chip { at: a, radius, strength } && a == at && strength
                == chip_strength(false, f.hovered == Some(Hit::Pinned(n as usize)))
            &&& f.pinned@[n].1 is Some ==> (added[1] matches BarOpModel::PinnedIcon {
                index,
                at: a,
                size,
            } && index == n as usize && a == at && size == (16 * f.dpi + 48) / 96)
            &&& f.pinned@[n].1 is None ==> (added[1] matches BarOpModel::Label { text, at: a, ink }
                && a == at && ink == f.bar.text_color && text == initial(f.pinned@[n].0@))
        }),
        tray_ops(f, 0).len() == 0,
        ({
            let added = tray_ops(f, n + 1).skip(tray_ops(f, n).len() as int);
            let at = rect_edges(f.layout.tray@[n]);
            let hovered = f.hovered == Some(Hit::Tray(n as usize));
            &&& tray_ops(f, n + 1).take(tray_ops(f, n).len() as int) == tray_ops(f, n)
            &&& added.len() == (if hovered {
                1int
            } else {
                0
            }) + (if f.tray@[n].icon is Some {
                1int
            } else {
                0
            })
            &&& hovered ==> (added[0] matches BarOpModel::Chip { at: a, radius, strength } && a == at
                && strength == 14)
            &&& f.tray@[n].icon is Some ==> (added.last() matches BarOpModel::TrayIcon {
                index,
                at: a,
                size,
            } && index == n as usize && a == at && size == (16 * f.dpi + 48) / 96)
        }),
{
    layout::lemma_small_lengths_scale(ICON_SIZE as int, f.dpi);
    let a = pinned_ops(f, n);
    let b = pinned_chip_ops(f, n);
    assert((a + b).skip(a.len() as int) =~= b);
    assert((a + b).take(a.len() as int) =~= a);
    let c = tray_ops(f, n);
    let d = tray_cell_ops(f, n);
    assert((c + d).skip(c.len() as int) =~= d);
    assert((c + d).take(c.len() as int) =~= c);
}

/// The Start button and the overflow chip are drawn over their rectangles, the
/// latter where there is one; a pinned app without an icon shows the first letter
/// of its file name.
pub proof fn law_start_and_overflow_are_drawn(f: Frame, path: Seq<char>)
    ensures
        start_ops(f).len() == 2,
        start_ops(f)[0] matches BarOpModel::Chip { at, radius, strength } && at == rect_edges(
            f.layout.start,
        ) && strength == chip_strength(false, f.hovered == Some(Hit::Start)),
        start_ops(f)[1] matches BarOpModel::StartGlyph { at, ink } && at == rect_edges(
            f.layout.start,
        ) && ink == f.bar.text_color,
        f.layout.overflow is None ==> overflow_ops(f).len() == 0,
        f.layout.overflow is Some ==> {
            let r = f.layout.overflow->0;
            &&& overflow_ops(f).len() == 2
            &&& overflow_ops(f)[0] matches BarOpModel::Chip { at, radius, strength } && at
                == rect_edges(r) && strength == chip_strength(
                false,
                f.hovered == Some(Hit::Overflow),
            )
            &&& overflow_ops(f)[1] matches BarOpModel::Label { text, at, ink } && text == "»"@ && at
                == rect_edges(r) && ink == f.bar.text_color
        },
        paths::file_name_of(path).len() > 0 ==> initial(path) == seq![paths::file_name_of(path)[0]],
        paths::file_name_of(path).len() == 0 ==> initial(path).len() == 0,
{
    let name = paths::file_name_of(path);
    if name.len() > 0 {
        assert(name.take(1) =~= seq![name[0]]);
    }
}

/// The icons of windows that are gone leave the device, those of windows with a
/// decoded icon that is not there come to it, and no other moves.
pub proof fn law_the_device_holds_the_icons_of_the_windows(
    uploaded: Seq<isize>,
    hwnd: isize,
    windows: Seq<TaskWindow>,
    w: TaskWindow,
    icons: Map<isize, Option<Icon>>,
)
    ensures
        stale(Seq::empty(), windows).len() == 0,
        stale(uploaded.push(hwnd), windows) == if exists|i: int|
            0 <= i < windows.len() && (#[trigger] windows[i]).hwnd == hwnd {
            stale(uploaded, windows)
        } else {
            stale(uploaded, windows).push(hwnd)
        },
        not_uploaded(uploaded, Seq::empty(), icons).len() == 0,
        not_uploaded(uploaded, windows.push(w), icons) == if !uploaded.contains(w.hwnd)
            && icons.dom().contains(w.hwnd) && icons[w.hwnd] is Some {
            not_uploaded(uploaded, windows, icons).push(w.hwnd)
        } else {
            not_uploaded(uploaded, windows, icons)
        },
{
    assert(uploaded.push(hwnd).drop_last() =~= uploaded);
    assert(uploaded.push(hwnd).last() == hwnd);
    assert(windows.push(w).drop_last() =~= windows);
    assert(windows.push(w).last() == w);
}

/// The lengths of what is drawn on the bar, at 96 DPI.
pub proof fn law_the_bars_parts_have_their_lengths()
    ensures
        CHIP_RADIUS == 6,
        CHIP_PAD == 10,
        ICON_SIZE == 16,
        ICON_GAP == 6,
        CLOCK_PAD == 16,
        OVERFLOW_MARK@ == "»"@,
{
}

} // verus!
